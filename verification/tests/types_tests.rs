use lighthouse_api::types::{BlockId, Epoch, Hash256, PublicKeyBytes, Slot, StateId, ValidatorId};

fn root() -> Hash256 {
    let mut bytes = [0u8; 32];
    bytes[0] = 0x12;
    bytes[31] = 0xab;
    Hash256(bytes)
}

#[test]
fn state_id_text_forms() {
    assert_eq!(StateId::Head.to_string(), "head");
    assert_eq!(StateId::Genesis.to_string(), "genesis");
    assert_eq!(StateId::Finalized.to_string(), "finalized");
    assert_eq!(StateId::Justified.to_string(), "justified");
    assert_eq!(StateId::Slot(Slot(1234)).to_string(), "1234");
    let expected = format!("0x12{}ab", "00".repeat(30));
    assert_eq!(StateId::Root(root()).to_string(), expected);
}

#[test]
fn state_id_parses() {
    assert_eq!(StateId::parse("head"), Some(StateId::Head));
    assert_eq!(StateId::parse("genesis"), Some(StateId::Genesis));
    assert_eq!(StateId::parse("finalized"), Some(StateId::Finalized));
    assert_eq!(StateId::parse("justified"), Some(StateId::Justified));
    assert_eq!(StateId::parse("77"), Some(StateId::Slot(Slot(77))));
    assert_eq!(StateId::parse("+77"), Some(StateId::Slot(Slot(77))));
    let upper = format!("0x12{}AB", "00".repeat(30));
    assert_eq!(StateId::parse(&upper), Some(StateId::Root(root())));
}

#[test]
fn state_id_refuses_bad_text() {
    for s in ["", "Head", "heads", "0x", "0x1234", "-1", "1.5", "0xzz"] {
        assert_eq!(StateId::parse(s), None, "{}", s);
    }
}

#[test]
fn state_and_block_ids_round_trip() {
    let ids = [
        StateId::Head,
        StateId::Genesis,
        StateId::Finalized,
        StateId::Justified,
        StateId::Slot(Slot(0)),
        StateId::Slot(Slot(u64::MAX)),
        StateId::Root(root()),
    ];
    for id in ids {
        assert_eq!(StateId::parse(&id.to_string()), Some(id));
    }
    let blocks = [BlockId::Head, BlockId::Slot(Slot(9)), BlockId::Root(root())];
    for id in blocks {
        assert_eq!(BlockId::parse(&id.to_string()), Some(id));
    }
}

#[test]
fn validator_id_text_forms() {
    assert_eq!(ValidatorId::Index(42).to_string(), "42");
    let pk = PublicKeyBytes([0xab; 48]);
    assert_eq!(ValidatorId::PublicKey(pk).to_string(), format!("0x{}", "ab".repeat(48)));
}

#[test]
fn slot_epoch_and_hash_text_forms() {
    assert_eq!(Slot(5).to_string(), "5");
    assert_eq!(Epoch(31).to_string(), "31");
    assert_eq!(Hash256([0; 32]).to_debug_string(), format!("0x{}", "0".repeat(64)));
}
