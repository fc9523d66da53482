use lighthouse_api::eth2::{
    ok_or_error, ok_or_not_found, ApiPath, BeaconNodeClient, Endpoint, ErrorMessage, Eth2Error, StatusCode,
};
use lighthouse_api::types::{BlockId, Epoch, Hash256, PublicKeyBytes, Slot, StateId, ValidatorId};

fn segments(path: &ApiPath) -> Vec<&str> {
    path.segments.iter().map(|s| s.as_str()).collect()
}

fn query(path: &ApiPath) -> Vec<(&str, &str)> {
    path.query.iter().map(|(k, v)| (k.as_str(), v.as_str())).collect()
}

fn message(code: u16) -> ErrorMessage {
    ErrorMessage { code, message: "boom".to_string(), stacktraces: vec![] }
}

#[test]
fn endpoint_paths() {
    let cases: Vec<(Endpoint, Vec<&str>)> = vec![
        (Endpoint::BeaconGenesis, vec!["beacon", "genesis"]),
        (Endpoint::BeaconStatesRoot(StateId::Head), vec!["beacon", "states", "head", "root"]),
        (Endpoint::BeaconStatesFork(StateId::Slot(Slot(3))), vec!["beacon", "states", "3", "fork"]),
        (
            Endpoint::BeaconStatesFinalityCheckpoints(StateId::Finalized),
            vec!["beacon", "states", "finalized", "finality_checkpoints"],
        ),
        (Endpoint::BeaconStatesValidators(StateId::Genesis), vec!["beacon", "states", "genesis", "validators"]),
        (
            Endpoint::BeaconStatesValidatorId(StateId::Head, ValidatorId::Index(12)),
            vec!["beacon", "states", "head", "validators", "12"],
        ),
        (Endpoint::BeaconHeadersBlockId(BlockId::Justified), vec!["beacon", "headers", "justified"]),
        (Endpoint::PostBeaconBlocks, vec!["beacon", "blocks"]),
        (Endpoint::BeaconBlocks(BlockId::Slot(Slot(8))), vec!["beacon", "blocks"]),
        (Endpoint::BeaconBlocksRoot(BlockId::Head), vec!["beacon", "blocks", "head", "root"]),
        (Endpoint::BeaconBlocksAttestations(BlockId::Head), vec!["beacon", "blocks", "head", "attestations"]),
        (Endpoint::BeaconPoolAttestations, vec!["beacon", "pool", "attestations"]),
        (Endpoint::BeaconPoolAttesterSlashings, vec!["beacon", "pool", "attester_slashings"]),
        (Endpoint::BeaconPoolProposerSlashings, vec!["beacon", "pool", "proposer_slashings"]),
        (Endpoint::BeaconPoolVoluntaryExits, vec!["beacon", "pool", "voluntary_exits"]),
    ];
    for (endpoint, expected) in cases {
        let path = endpoint.path();
        assert_eq!(segments(&path), expected);
        assert!(path.query.is_empty());
    }
}

#[test]
fn committees_path_and_query() {
    let all = Endpoint::BeaconStatesCommittees {
        state_id: StateId::Head,
        epoch: Epoch(4),
        slot: Some(Slot(130)),
        index: Some(2),
    };
    let path = all.path();
    assert_eq!(segments(&path), vec!["beacon", "states", "head", "committees"]);
    assert_eq!(query(&path), vec![("slot", "130"), ("index", "2")]);

    let only_index = Endpoint::BeaconStatesCommittees { state_id: StateId::Head, epoch: Epoch(4), slot: None, index: Some(0) };
    assert_eq!(query(&only_index.path()), vec![("index", "0")]);
}

#[test]
fn headers_query() {
    let root = Hash256([0x11; 32]);
    let path = Endpoint::BeaconHeaders { slot: Some(Slot(1)), parent_root: Some(root) }.path();
    assert_eq!(segments(&path), vec!["beacon", "headers"]);
    let expected_root = format!("0x{}", "11".repeat(32));
    assert_eq!(query(&path), vec![("slot", "1"), ("parent_root", expected_root.as_str())]);
    let none = Endpoint::BeaconHeaders { slot: None, parent_root: None }.path();
    assert!(none.query.is_empty());
}

#[test]
fn validator_id_by_public_key_in_path() {
    let pk = PublicKeyBytes([1; 48]);
    let path = Endpoint::BeaconStatesValidatorId(StateId::Head, ValidatorId::PublicKey(pk)).path();
    assert_eq!(path.segments[4], format!("0x{}", "01".repeat(48)));
}

#[test]
fn status_codes() {
    assert!(StatusCode::from_u16(99).is_none());
    assert_eq!(StatusCode::from_u16(100).unwrap().as_u16(), 100);
    assert_eq!(StatusCode::from_u16(999).unwrap().as_u16(), 999);
    assert!(StatusCode::from_u16(1000).is_none());
    assert_eq!(StatusCode::ok().as_u16(), 200);
    assert_eq!(StatusCode::not_found().as_u16(), 404);
}

#[test]
fn ok_response_is_accepted() {
    assert!(ok_or_error(StatusCode::ok(), None).is_ok());
    assert!(ok_or_error(StatusCode::ok(), Some(message(500))).is_ok());
    assert_eq!(ok_or_not_found(StatusCode::ok(), None).unwrap(), true);
    assert_eq!(ok_or_not_found(StatusCode::ok(), Some(message(404))).unwrap(), true);
    assert_eq!(Endpoint::PostBeaconBlocks.verdict(StatusCode::ok(), None).unwrap(), true);
    assert_eq!(Endpoint::BeaconGenesis.verdict(StatusCode::ok(), None).unwrap(), true);
}

#[test]
fn error_response_with_message() {
    let status = StatusCode::from_u16(500).unwrap();
    match ok_or_error(status, Some(message(500))) {
        Err(Eth2Error::ServerMessage(m)) => assert_eq!(m.code, 500),
        other => panic!("unexpected {:?}", other),
    }
}

#[test]
fn error_response_without_message() {
    let status = StatusCode::from_u16(503).unwrap();
    match ok_or_error(status, None) {
        Err(Eth2Error::StatusCode(s)) => assert_eq!(s.as_u16(), 503),
        other => panic!("unexpected {:?}", other),
    }
}

#[test]
fn not_found_is_absent() {
    assert_eq!(ok_or_not_found(StatusCode::not_found(), None).unwrap(), false);
    assert_eq!(ok_or_not_found(StatusCode::not_found(), Some(message(404))).unwrap(), false);
}

#[test]
fn not_found_with_other_message_code_is_absent() {
    assert_eq!(ok_or_not_found(StatusCode::not_found(), Some(message(500))).unwrap(), false);
}

#[test]
fn message_with_not_found_code_is_absent() {
    let status = StatusCode::from_u16(500).unwrap();
    assert_eq!(ok_or_not_found(status, Some(message(404))).unwrap(), false);
}

#[test]
fn other_status_is_an_error_for_optional_endpoints() {
    let status = StatusCode::from_u16(500).unwrap();
    match ok_or_not_found(status, None) {
        Err(Eth2Error::StatusCode(s)) => assert_eq!(s.as_u16(), 500),
        other => panic!("unexpected {:?}", other),
    }
    match ok_or_not_found(status, Some(message(503))) {
        Err(Eth2Error::ServerMessage(m)) => assert_eq!(m.code, 503),
        other => panic!("unexpected {:?}", other),
    }
}

#[test]
fn posting_a_block_allows_not_found() {
    assert_eq!(Endpoint::PostBeaconBlocks.verdict(StatusCode::not_found(), None).unwrap(), false);
    assert_eq!(Endpoint::PostBeaconBlocks.verdict(StatusCode::not_found(), Some(message(500))).unwrap(), false);
    let status = StatusCode::from_u16(400).unwrap();
    match Endpoint::PostBeaconBlocks.verdict(status, Some(message(400))) {
        Err(Eth2Error::ServerMessage(m)) => assert_eq!(m.code, 400),
        other => panic!("unexpected {:?}", other),
    }
}

#[test]
fn which_endpoints_allow_not_found() {
    let allowed = vec![
        Endpoint::BeaconStatesRoot(StateId::Head),
        Endpoint::BeaconStatesFork(StateId::Head),
        Endpoint::BeaconStatesFinalityCheckpoints(StateId::Head),
        Endpoint::BeaconStatesValidators(StateId::Head),
        Endpoint::BeaconStatesCommittees { state_id: StateId::Head, epoch: Epoch(0), slot: None, index: None },
        Endpoint::BeaconStatesValidatorId(StateId::Head, ValidatorId::Index(1)),
        Endpoint::BeaconHeaders { slot: None, parent_root: None },
        Endpoint::BeaconHeadersBlockId(BlockId::Head),
        Endpoint::PostBeaconBlocks,
        Endpoint::BeaconBlocks(BlockId::Head),
        Endpoint::BeaconBlocksRoot(BlockId::Head),
        Endpoint::BeaconBlocksAttestations(BlockId::Head),
    ];
    for e in allowed {
        assert!(e.allows_not_found(), "{:?}", e);
        assert_eq!(e.verdict(StatusCode::not_found(), None).unwrap(), false);
    }
    let refused = vec![
        Endpoint::BeaconGenesis,
        Endpoint::BeaconPoolAttestations,
        Endpoint::BeaconPoolAttesterSlashings,
        Endpoint::BeaconPoolProposerSlashings,
        Endpoint::BeaconPoolVoluntaryExits,
    ];
    for e in refused {
        assert!(!e.allows_not_found(), "{:?}", e);
        match e.verdict(StatusCode::not_found(), Some(message(404))) {
            Err(Eth2Error::ServerMessage(m)) => assert_eq!(m.code, 404),
            other => panic!("unexpected {:?}", other),
        }
    }
}

#[test]
fn genesis_url_has_no_query_and_no_fragment() {
    let client = BeaconNodeClient::new(reqwest::Url::parse("http://localhost:5052").unwrap()).unwrap();
    let url = client.endpoint_url(&Endpoint::BeaconGenesis).unwrap();
    assert_eq!(url.as_str(), "http://localhost:5052/eth/v1/beacon/genesis");
    assert_eq!(url.query(), None);
    assert_eq!(url.fragment(), None);
}

#[test]
fn fragment_and_query_of_the_server_are_kept() {
    let client = BeaconNodeClient::new(reqwest::Url::parse("http://node:5052/?token=abc#top").unwrap()).unwrap();
    let url = client.endpoint_url(&Endpoint::BeaconHeaders { slot: Some(Slot(1)), parent_root: None }).unwrap();
    assert_eq!(url.as_str(), "http://node:5052/eth/v1/beacon/headers?token=abc&slot=1#top");
    assert_eq!(url.query(), Some("token=abc&slot=1"));
    assert_eq!(url.fragment(), Some("top"));
    let empty = BeaconNodeClient::new(reqwest::Url::parse("http://node:5052/?").unwrap()).unwrap();
    let url = empty.endpoint_url(&Endpoint::BeaconHeaders { slot: Some(Slot(1)), parent_root: None }).unwrap();
    assert_eq!(url.query(), Some("slot=1"));
}

#[test]
fn error_status() {
    assert_eq!(Eth2Error::StatusCode(StatusCode::not_found()).status().unwrap().as_u16(), 404);
    assert_eq!(Eth2Error::ServerMessage(message(418)).status().unwrap().as_u16(), 418);
    assert!(Eth2Error::ServerMessage(message(42)).status().is_none());
    assert!(Eth2Error::ServerMessage(message(1000)).status().is_none());
    let builder_error = reqwest::Client::new().get("not a url").build().unwrap_err();
    assert!(Eth2Error::Reqwest(builder_error).status().is_none());
}

#[test]
fn client_base_and_endpoint_urls() {
    let client = BeaconNodeClient::new(reqwest::Url::parse("http://localhost:5052").unwrap()).unwrap();
    assert_eq!(client.server().as_str(), "http://localhost:5052/eth/v1");
    let url = client.endpoint_url(&Endpoint::BeaconStatesRoot(StateId::Head)).unwrap();
    assert_eq!(url.as_str(), "http://localhost:5052/eth/v1/beacon/states/head/root");
    let committees = Endpoint::BeaconStatesCommittees {
        state_id: StateId::Slot(Slot(7)),
        epoch: Epoch(1),
        slot: Some(Slot(40)),
        index: Some(3),
    };
    let url = client.endpoint_url(&committees).unwrap();
    assert_eq!(url.as_str(), "http://localhost:5052/eth/v1/beacon/states/7/committees?slot=40&index=3");
}

#[test]
fn client_keeps_server_path() {
    let client = BeaconNodeClient::new(reqwest::Url::parse("http://user@node:5052/api").unwrap()).unwrap();
    let url = client.endpoint_url(&Endpoint::BeaconGenesis).unwrap();
    assert_eq!(url.as_str(), "http://user@node:5052/api/eth/v1/beacon/genesis");
    assert_eq!(url.host_str(), Some("node"));
    assert_eq!(url.port(), Some(5052));
    let url = client.endpoint_url(&Endpoint::BeaconBlocks(BlockId::Head)).unwrap();
    assert_eq!(url.as_str(), "http://user@node:5052/api/eth/v1/beacon/blocks");
}

#[test]
fn client_refuses_url_that_cannot_be_a_base() {
    assert!(BeaconNodeClient::new(reqwest::Url::parse("mailto:node@example.com").unwrap()).is_err());
    assert!(BeaconNodeClient::new(reqwest::Url::parse("data:text/plain,node").unwrap()).is_err());
}

#[test]
fn client_keeps_server_query() {
    let client = BeaconNodeClient::new(reqwest::Url::parse("http://node:5052/?token=abc").unwrap()).unwrap();
    let url = client.endpoint_url(&Endpoint::BeaconHeaders { slot: Some(Slot(1)), parent_root: None }).unwrap();
    assert_eq!(url.as_str(), "http://node:5052/eth/v1/beacon/headers?token=abc&slot=1");
    let pairs: Vec<(String, String)> = url.query_pairs().map(|(k, v)| (k.into_owned(), v.into_owned())).collect();
    assert_eq!(pairs, vec![("token".to_string(), "abc".to_string()), ("slot".to_string(), "1".to_string())]);
}

#[test]
fn client_on_empty_path_of_non_special_scheme() {
    let client = BeaconNodeClient::new(reqwest::Url::parse("foo://node").unwrap()).unwrap();
    let segments: Vec<&str> = client.server().path_segments().unwrap().collect();
    assert_eq!(segments, vec!["eth", "v1"]);
}
