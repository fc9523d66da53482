//! Identifiers that appear in beacon-node API paths, with their text forms.

use vstd::prelude::*;
use vstd::string::*;
use crate::text::{
    decimal_chars, decimal_string, hex_char, hex_chars, hex_value, is_digit, is_lower_hex_digit,
    lemma_decimal_chars, lemma_parse_decimal, lemma_parse_hex, lemma_prefixed_hex_digits, parse_hex_32,
    parse_hex_spec, parse_u64, parse_u64_spec, prefixed_hex_chars, prefixed_hex_string,
};

verus! {

broadcast use vstd::array::group_array_axioms;

/// A slot number.
#[derive(Clone, Copy, Debug, PartialEq, Eq, Hash)]
pub struct Slot(pub u64);

/// An epoch number.
#[derive(Clone, Copy, Debug, PartialEq, Eq, Hash)]
pub struct Epoch(pub u64);

/// A 32-byte hash, such as a block or state root.
#[derive(Clone, Copy, Debug, PartialEq, Eq, Hash)]
pub struct Hash256(pub [u8; 32]);

/// The 48 bytes of a compressed BLS public key.
#[derive(Clone, Copy, Debug, PartialEq, Eq, Hash)]
pub struct PublicKeyBytes(pub [u8; 48]);

/// Names a beacon state: by a well-known checkpoint, by slot or by state root.
#[derive(Clone, Copy, Debug, PartialEq, Eq, Hash)]
pub enum StateId {
    Head,
    Genesis,
    Finalized,
    Justified,
    Slot(Slot),
    Root(Hash256),
}

/// Names a beacon block: by a well-known checkpoint, by slot or by block root.
#[derive(Clone, Copy, Debug, PartialEq, Eq, Hash)]
pub enum BlockId {
    Head,
    Genesis,
    Finalized,
    Justified,
    Slot(Slot),
    Root(Hash256),
}

/// Names a validator: by public key or by index in the registry.
#[derive(Clone, Copy, Debug, PartialEq, Eq, Hash)]
pub enum ValidatorId {
    PublicKey(PublicKeyBytes),
    Index(u64),
}

pub open spec fn head_chars() -> Seq<char> {
    seq!['h', 'e', 'a', 'd']
}

pub open spec fn genesis_chars() -> Seq<char> {
    seq!['g', 'e', 'n', 'e', 's', 'i', 's']
}

pub open spec fn finalized_chars() -> Seq<char> {
    seq!['f', 'i', 'n', 'a', 'l', 'i', 'z', 'e', 'd']
}

pub open spec fn justified_chars() -> Seq<char> {
    seq!['j', 'u', 's', 't', 'i', 'f', 'i', 'e', 'd']
}

/// The 32-byte array whose contents are `b` (when `b` has 32 elements).
pub open spec fn bytes32(b: Seq<u8>) -> [u8; 32] {
    choose|a: [u8; 32]| a@ == b
}

pub proof fn lemma_bytes32(a: [u8; 32])
    ensures
        bytes32(a@) == a,
{
    let c = bytes32(a@);
    assert(c@ == a@);
    assert(c =~= a);
}

/// The text of a state or block identifier, keyword or slot or root, as their `Display` renders it.
pub open spec fn identifier_chars(keyword: int, slot: u64, root: [u8; 32]) -> Seq<char> {
    if keyword == 0 {
        head_chars()
    } else if keyword == 1 {
        genesis_chars()
    } else if keyword == 2 {
        finalized_chars()
    } else if keyword == 3 {
        justified_chars()
    } else if keyword == 4 {
        decimal_chars(slot as nat)
    } else {
        prefixed_hex_chars(root@)
    }
}

impl StateId {
    /// The text form: `head`, `genesis`, `finalized`, `justified`, the slot in decimal, or the
    /// root as `0x` and 64 lower-case hexadecimal digits.
    pub open spec fn text(self) -> Seq<char> {
        match self {
            StateId::Head => head_chars(),
            StateId::Genesis => genesis_chars(),
            StateId::Finalized => finalized_chars(),
            StateId::Justified => justified_chars(),
            StateId::Slot(s) => decimal_chars(s.0 as nat),
            StateId::Root(r) => prefixed_hex_chars(r.0@),
        }
    }

    /// What a path parameter parses to: a keyword, else (after `0x`) exactly 64 hexadecimal
    /// digits as a root, else a decimal `u64` as a slot.
    pub open spec fn parse_spec(s: Seq<char>) -> Option<StateId> {
        if s == head_chars() {
            Some(StateId::Head)
        } else if s == genesis_chars() {
            Some(StateId::Genesis)
        } else if s == finalized_chars() {
            Some(StateId::Finalized)
        } else if s == justified_chars() {
            Some(StateId::Justified)
        } else if s.len() >= 2 && s[0] == '0' && s[1] == 'x' {
            match parse_hex_spec(s.skip(2), 32) {
                Some(b) => Some(StateId::Root(Hash256(bytes32(b)))),
                None => None,
            }
        } else {
            match parse_u64_spec(s) {
                Some(n) => Some(StateId::Slot(Slot(n))),
                None => None,
            }
        }
    }

    /// Renders the identifier as its `Display` does.
    pub fn to_string(&self) -> (s: String)
        ensures
            s@ == self.text(),
    {
        match self {
            StateId::Head => {
                proof { reveal_strlit("head"); }
                String::from_str("head")
            },
            StateId::Genesis => {
                proof { reveal_strlit("genesis"); }
                String::from_str("genesis")
            },
            StateId::Finalized => {
                proof { reveal_strlit("finalized"); }
                String::from_str("finalized")
            },
            StateId::Justified => {
                proof { reveal_strlit("justified"); }
                String::from_str("justified")
            },
            StateId::Slot(slot) => decimal_string(slot.0),
            StateId::Root(root) => prefixed_hex_string(&root.0),
        }
    }

    /// Parses a path parameter, as the identifier's `FromStr` does.
    pub fn parse(s: &str) -> (r: Option<StateId>)
        ensures
            r == StateId::parse_spec(s@),
    {
        proof {
            reveal_strlit("head");
            reveal_strlit("genesis");
            reveal_strlit("finalized");
            reveal_strlit("justified");
            assert("head"@ =~= head_chars());
            assert("genesis"@ =~= genesis_chars());
            assert("finalized"@ =~= finalized_chars());
            assert("justified"@ =~= justified_chars());
        }
        if str_equals(s, "head") {
            return Some(StateId::Head);
        }
        if str_equals(s, "genesis") {
            return Some(StateId::Genesis);
        }
        if str_equals(s, "finalized") {
            return Some(StateId::Finalized);
        }
        if str_equals(s, "justified") {
            return Some(StateId::Justified);
        }
        let len = s.unicode_len();
        if len >= 2 && s.get_char(0) == '0' && s.get_char(1) == 'x' {
            let rest = s.substring_char(2, len);
            assert(rest@ =~= s@.skip(2));
            match parse_hex_32(rest) {
                Some(a) => {
                    proof { lemma_bytes32(a); }
                    Some(StateId::Root(Hash256(a)))
                },
                None => None,
            }
        } else {
            match parse_u64(s) {
                Some(n) => Some(StateId::Slot(Slot(n))),
                None => None,
            }
        }
    }
}

impl BlockId {
    /// The text form, the same as that of the state identifier of the same shape.
    pub open spec fn text(self) -> Seq<char> {
        self.as_state_id().text()
    }

    /// The state identifier of the same shape.
    pub open spec fn as_state_id(self) -> StateId {
        match self {
            BlockId::Head => StateId::Head,
            BlockId::Genesis => StateId::Genesis,
            BlockId::Finalized => StateId::Finalized,
            BlockId::Justified => StateId::Justified,
            BlockId::Slot(s) => StateId::Slot(s),
            BlockId::Root(r) => StateId::Root(r),
        }
    }

    pub open spec fn from_state_id(id: StateId) -> BlockId {
        match id {
            StateId::Head => BlockId::Head,
            StateId::Genesis => BlockId::Genesis,
            StateId::Finalized => BlockId::Finalized,
            StateId::Justified => BlockId::Justified,
            StateId::Slot(s) => BlockId::Slot(s),
            StateId::Root(r) => BlockId::Root(r),
        }
    }

    /// What a path parameter parses to; the grammar is that of state identifiers.
    pub open spec fn parse_spec(s: Seq<char>) -> Option<BlockId> {
        match StateId::parse_spec(s) {
            Some(id) => Some(BlockId::from_state_id(id)),
            None => None,
        }
    }

    /// Renders the identifier as its `Display` does.
    pub fn to_string(&self) -> (s: String)
        ensures
            s@ == self.text(),
    {
        let id = match self {
            BlockId::Head => StateId::Head,
            BlockId::Genesis => StateId::Genesis,
            BlockId::Finalized => StateId::Finalized,
            BlockId::Justified => StateId::Justified,
            BlockId::Slot(s) => StateId::Slot(*s),
            BlockId::Root(r) => StateId::Root(*r),
        };
        id.to_string()
    }

    /// Parses a path parameter, as the identifier's `FromStr` does.
    pub fn parse(s: &str) -> (r: Option<BlockId>)
        ensures
            r == BlockId::parse_spec(s@),
    {
        match StateId::parse(s) {
            Some(id) => Some(
                match id {
                    StateId::Head => BlockId::Head,
                    StateId::Genesis => BlockId::Genesis,
                    StateId::Finalized => BlockId::Finalized,
                    StateId::Justified => BlockId::Justified,
                    StateId::Slot(s) => BlockId::Slot(s),
                    StateId::Root(r) => BlockId::Root(r),
                },
            ),
            None => None,
        }
    }
}

impl ValidatorId {
    /// The text form: the public key as `0x` and 96 lower-case hexadecimal digits, or the
    /// index in decimal.
    pub open spec fn text(self) -> Seq<char> {
        match self {
            ValidatorId::PublicKey(pk) => prefixed_hex_chars(pk.0@),
            ValidatorId::Index(i) => decimal_chars(i as nat),
        }
    }

    /// Renders the identifier as its `Display` does.
    pub fn to_string(&self) -> (s: String)
        ensures
            s@ == self.text(),
    {
        match self {
            ValidatorId::PublicKey(pk) => prefixed_hex_string(&pk.0),
            ValidatorId::Index(i) => decimal_string(*i),
        }
    }
}

impl Slot {
    /// Renders the slot in decimal.
    pub fn to_string(&self) -> (s: String)
        ensures
            s@ == decimal_chars(self.0 as nat),
    {
        decimal_string(self.0)
    }
}

impl Epoch {
    /// Renders the epoch in decimal.
    pub fn to_string(&self) -> (s: String)
        ensures
            s@ == decimal_chars(self.0 as nat),
    {
        decimal_string(self.0)
    }
}

impl Hash256 {
    /// Renders the hash as its `Debug` does: `0x` and 64 lower-case hexadecimal digits.
    pub fn to_debug_string(&self) -> (s: String)
        ensures
            s@ == prefixed_hex_chars(self.0@),
    {
        prefixed_hex_string(&self.0)
    }
}

/// Whether two strings hold the same characters.
pub fn str_equals(a: &str, b: &str) -> (r: bool)
    ensures
        r == (a@ == b@),
{
    let n = a.unicode_len();
    if n != b.unicode_len() {
        return false;
    }
    let mut i: usize = 0;
    while i < n
        invariant
            i <= n,
            n == a@.len() == b@.len(),
            forall|j: int| 0 <= j < i ==> a@[j] == b@[j],
        decreases n - i,
    {
        if a.get_char(i) != b.get_char(i) {
            return false;
        }
        i = i + 1;
    }
    assert(a@ =~= b@);
    true
}

// ---------------------------------------------------------------------------------------------
// Laws

/// A state identifier parses back from its text form.
pub proof fn lemma_state_id_round_trip(id: StateId)
    ensures
        StateId::parse_spec(id.text()) == Some(id),
{
    match id {
        StateId::Slot(s) => {
            lemma_decimal_chars(s.0 as nat);
            lemma_parse_decimal(s.0);
            let t = decimal_chars(s.0 as nat);
            assert(is_digit(t[0]));
            if t.len() >= 2 {
                assert(is_digit(t[1]));
            }
        },
        StateId::Root(r) => {
            let t = prefixed_hex_chars(r.0@);
            assert(t.skip(2) =~= hex_chars(r.0@));
            lemma_parse_hex(r.0@);
            lemma_bytes32(r.0);
            assert(t[0] == '0');
        },
        _ => {},
    }
}

/// A block identifier parses back from its text form.
pub proof fn lemma_block_id_round_trip(id: BlockId)
    ensures
        BlockId::parse_spec(id.text()) == Some(id),
{
    lemma_state_id_round_trip(id.as_state_id());
}

/// The text of a validator public key is `0x` and then, for each of the key's 48 bytes in
/// order, two lower-case hexadecimal digits whose values give back the byte.
pub proof fn lemma_validator_key_text(pk: PublicKeyBytes)
    ensures
        ValidatorId::PublicKey(pk).text().len() == 98,
        ValidatorId::PublicKey(pk).text()[0] == '0',
        ValidatorId::PublicKey(pk).text()[1] == 'x',
        forall|i: int|
            #![trigger pk.0@[i]]
            0 <= i < 48 ==> {
                &&& ValidatorId::PublicKey(pk).text()[2 + 2 * i] == hex_char(pk.0@[i] as nat / 16)
                &&& ValidatorId::PublicKey(pk).text()[3 + 2 * i] == hex_char(pk.0@[i] as nat % 16)
                &&& is_lower_hex_digit(ValidatorId::PublicKey(pk).text()[2 + 2 * i])
                &&& is_lower_hex_digit(ValidatorId::PublicKey(pk).text()[3 + 2 * i])
                &&& hex_value(ValidatorId::PublicKey(pk).text()[2 + 2 * i]) * 16 + hex_value(
                    ValidatorId::PublicKey(pk).text()[3 + 2 * i],
                ) == pk.0@[i]
            },
{
    lemma_prefixed_hex_digits(pk.0@);
}

/// The first character of an identifier's text: a keyword's first letter, a digit for a slot,
/// `0` for a root.
proof fn lemma_state_id_first_char(id: StateId)
    ensures
        id.text().len() > 0,
        id is Slot ==> is_digit(id.text()[0]),
        id is Root ==> id.text()[0] == '0',
{
    match id {
        StateId::Slot(s) => {
            lemma_decimal_chars(s.0 as nat);
            assert(is_digit(decimal_chars(s.0 as nat)[0]));
        },
        StateId::Root(r) => {
            lemma_prefixed_hex_digits(r.0@);
        },
        _ => {},
    }
}

/// Each keyword is the text of exactly one state identifier, the one it names, and parses to it.
pub proof fn lemma_state_id_keywords(id: StateId)
    ensures
        id.text() == seq!['h', 'e', 'a', 'd'] <==> id == StateId::Head,
        id.text() == seq!['g', 'e', 'n', 'e', 's', 'i', 's'] <==> id == StateId::Genesis,
        id.text() == seq!['f', 'i', 'n', 'a', 'l', 'i', 'z', 'e', 'd'] <==> id == StateId::Finalized,
        id.text() == seq!['j', 'u', 's', 't', 'i', 'f', 'i', 'e', 'd'] <==> id == StateId::Justified,
        StateId::parse_spec(seq!['h', 'e', 'a', 'd']) == Some(StateId::Head),
        StateId::parse_spec(seq!['g', 'e', 'n', 'e', 's', 'i', 's']) == Some(StateId::Genesis),
        StateId::parse_spec(seq!['f', 'i', 'n', 'a', 'l', 'i', 'z', 'e', 'd']) == Some(StateId::Finalized),
        StateId::parse_spec(seq!['j', 'u', 's', 't', 'i', 'f', 'i', 'e', 'd']) == Some(StateId::Justified),
{
    lemma_state_id_first_char(id);
    let t = id.text();
    assert(StateId::Head.text() =~= seq!['h', 'e', 'a', 'd']);
    assert(StateId::Genesis.text() =~= seq!['g', 'e', 'n', 'e', 's', 'i', 's']);
    assert(StateId::Finalized.text() =~= seq!['f', 'i', 'n', 'a', 'l', 'i', 'z', 'e', 'd']);
    assert(StateId::Justified.text() =~= seq!['j', 'u', 's', 't', 'i', 'f', 'i', 'e', 'd']);
    lemma_state_id_round_trip(StateId::Head);
    lemma_state_id_round_trip(StateId::Genesis);
    lemma_state_id_round_trip(StateId::Finalized);
    lemma_state_id_round_trip(StateId::Justified);
    if t == seq!['h', 'e', 'a', 'd'] {
        assert(t[0] == 'h');
    }
    if t == seq!['g', 'e', 'n', 'e', 's', 'i', 's'] {
        assert(t[0] == 'g');
    }
    if t == seq!['f', 'i', 'n', 'a', 'l', 'i', 'z', 'e', 'd'] {
        assert(t[0] == 'f');
    }
    if t == seq!['j', 'u', 's', 't', 'i', 'f', 'i', 'e', 'd'] {
        assert(t[0] == 'j');
    }
}

/// Each keyword is the text of exactly one block identifier, the one it names, and parses to it.
pub proof fn lemma_block_id_keywords(id: BlockId)
    ensures
        id.text() == seq!['h', 'e', 'a', 'd'] <==> id == BlockId::Head,
        id.text() == seq!['g', 'e', 'n', 'e', 's', 'i', 's'] <==> id == BlockId::Genesis,
        id.text() == seq!['f', 'i', 'n', 'a', 'l', 'i', 'z', 'e', 'd'] <==> id == BlockId::Finalized,
        id.text() == seq!['j', 'u', 's', 't', 'i', 'f', 'i', 'e', 'd'] <==> id == BlockId::Justified,
        BlockId::parse_spec(seq!['h', 'e', 'a', 'd']) == Some(BlockId::Head),
        BlockId::parse_spec(seq!['g', 'e', 'n', 'e', 's', 'i', 's']) == Some(BlockId::Genesis),
        BlockId::parse_spec(seq!['f', 'i', 'n', 'a', 'l', 'i', 'z', 'e', 'd']) == Some(BlockId::Finalized),
        BlockId::parse_spec(seq!['j', 'u', 's', 't', 'i', 'f', 'i', 'e', 'd']) == Some(BlockId::Justified),
{
    lemma_state_id_keywords(id.as_state_id());
    lemma_block_id_round_trip(BlockId::Head);
    lemma_block_id_round_trip(BlockId::Genesis);
    lemma_block_id_round_trip(BlockId::Finalized);
    lemma_block_id_round_trip(BlockId::Justified);
    lemma_state_id_keywords(StateId::Head);
    lemma_state_id_keywords(StateId::Genesis);
    lemma_state_id_keywords(StateId::Finalized);
    lemma_state_id_keywords(StateId::Justified);
}

} // verus!
