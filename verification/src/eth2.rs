//! The beacon-node API client: endpoint paths, the server URL, and how responses are judged.

use vstd::prelude::*;
use vstd::string::*;
use crate::types::{BlockId, Epoch, Hash256, PublicKeyBytes, Slot, StateId, ValidatorId};
use crate::text::{
    decimal_chars, decimal_string, hex_char, hex_value, is_lower_hex_digit, lemma_prefixed_hex_digits,
    prefixed_hex_chars,
};

verus! {

// ---------------------------------------------------------------------------------------------
// Outside types

#[verifier::external_type_specification]
#[verifier::external_body]
pub struct ExUrl(reqwest::Url);

#[verifier::external_type_specification]
#[verifier::external_body]
pub struct ExReqwestError(reqwest::Error);

/// Calls `url::Url::clone` (derived); the clone is the same URL.
#[verifier::external_body]
fn url_clone(url: &reqwest::Url) -> (r: reqwest::Url)
    ensures
        r == *url,
{
    url.clone()
}

/// The contents of a URL's path: its segments as `url::Url::path_segments` yields them
/// (percent-encoded, split at `/` after the leading one), or `None` when the path does not start
/// with `/`.
pub uninterp spec fn url_path_segments(url: reqwest::Url) -> Option<Seq<Seq<char>>>;

/// The contents of a URL's query: its pairs as `url::Url::query_pairs` yields them (decoded,
/// in order).
pub uninterp spec fn url_query_pairs(url: reqwest::Url) -> Seq<(Seq<char>, Seq<char>)>;

/// The length in bytes of a URL's serialization (`url::Url::as_str`).
pub uninterp spec fn url_len(url: reqwest::Url) -> nat;

/// Whether `url::Url::cannot_be_a_base` holds: the text after the scheme's `:` does not start
/// with `/` (as in `mailto:`).
pub uninterp spec fn url_cannot_be_a_base(url: reqwest::Url) -> bool;

/// The part of a URL's serialization before its path: scheme, authority (user, host, port).
pub uninterp spec fn url_before_path(url: reqwest::Url) -> Seq<char>;

/// A URL's query string as `url::Url::query` gives it: the text after `?` and before any `#`,
/// or `None` when there is no `?`.
pub uninterp spec fn url_query(url: reqwest::Url) -> Option<Seq<char>>;

/// A URL's fragment as `url::Url::fragment` gives it: the text after `#`, or `None` when there
/// is no `#`.
pub uninterp spec fn url_fragment(url: reqwest::Url) -> Option<Seq<char>>;

/// Calls `url::Url::as_str` and `str::len`: the length of the serialization in bytes.
#[verifier::external_body]
fn url_byte_len(url: &reqwest::Url) -> (r: usize)
    ensures
        r == url_len(*url),
{
    url.as_str().len()
}

/// A character that neither path-segment encoding nor form-urlencoding changes.
pub open spec fn is_plain_char(c: char) -> bool {
    ('a' <= c && c <= 'z') || ('A' <= c && c <= 'Z') || ('0' <= c && c <= '9') || c == '_'
}

/// Non-empty text of plain characters only (so neither `.` nor `..`).
pub open spec fn is_plain_text(s: Seq<char>) -> bool {
    s.len() > 0 && forall|i: int| 0 <= i < s.len() ==> #[trigger] is_plain_char(s[i])
}

/// A query pair whose key and value are both plain text.
pub open spec fn is_plain_pair(p: (Seq<char>, Seq<char>)) -> bool {
    is_plain_text(p.0) && is_plain_text(p.1)
}

/// The segments that a pushed segment follows: none for a missing path or the root path `/`
/// (whose only segment is empty), else the path's segments.
pub open spec fn segments_below_root(segments: Option<Seq<Seq<char>>>) -> Seq<Seq<char>> {
    match segments {
        Some(v) => if v == seq![Seq::<char>::empty()] { seq![] } else { v },
        None => seq![],
    }
}

/// The most that pushing `segment` lengthens a URL: a `/` and the segment, which takes one byte
/// per character when it is plain text and is otherwise percent-encoded (at most four UTF-8
/// bytes per character, three characters each).
pub open spec fn segment_growth(segment: Seq<char>) -> nat {
    if is_plain_text(segment) {
        1 + segment.len()
    } else {
        1 + 12 * segment.len()
    }
}

/// The most that appending the pair `key=value` lengthens a URL: `?` or `&`, `=`, and the key
/// and value, one byte per character when both are plain text and otherwise form-urlencoded (at
/// most four UTF-8 bytes per character, three characters each).
pub open spec fn pair_growth(key: Seq<char>, value: Seq<char>) -> nat {
    if is_plain_text(key) && is_plain_text(value) {
        2 + key.len() + value.len()
    } else {
        2 + 12 * (key.len() + value.len())
    }
}

/// The query string after appending the pair `key=value` to `query`: a `&` between it and a
/// non-empty query, none after an empty or missing one.
pub open spec fn query_with_pair(query: Option<Seq<char>>, key: Seq<char>, value: Seq<char>) -> Seq<char> {
    let pair = key + seq!['='] + value;
    match query {
        Some(q) => if q.len() > 0 { q + seq!['&'] + pair } else { pair },
        None => pair,
    }
}

/// The query string after appending `pairs`, in order, to `query`.
pub open spec fn query_with_pairs(query: Option<Seq<char>>, pairs: Seq<(Seq<char>, Seq<char>)>) -> Option<Seq<char>>
    decreases pairs.len(),
{
    if pairs.len() == 0 {
        query
    } else {
        Some(query_with_pair(query_with_pairs(query, pairs.drop_last()), pairs.last().0, pairs.last().1))
    }
}

/// Calls `url::Url::path_segments_mut` and `PathSegmentsMut::push`. The first returns `Err(())`
/// exactly when the URL cannot be a base, and the URL stays as it was; a URL whose path starts
/// with `/` can be a base. Both convert the URL's length to `u32` and panic beyond it, which the
/// bound on the length rules out. `push` appends the segment after a `/`, unless the path is `/`
/// itself (then it replaces the empty segment) or empty (then the path becomes `/` and the
/// segment), percent-encoding it; a segment of letters, digits and `_` is not encoded and is
/// neither `.` nor `..`, which `push` skips. What becomes of other segments is not stated. The
/// part before the path, the query and the fragment are kept as they were.
#[verifier::external_body]
fn url_push_path_segment(url: &mut reqwest::Url, segment: &str) -> (r: Result<(), ()>)
    requires
        url_len(*old(url)) + segment_growth(segment@) <= u32::MAX,
    ensures
        r is Err <==> url_cannot_be_a_base(*old(url)),
        r is Err ==> *final(url) == *old(url),
        url_path_segments(*old(url)) is Some ==> r is Ok,
        r is Ok && is_plain_text(segment@) ==> url_path_segments(*final(url)) == Some(
            segments_below_root(url_path_segments(*old(url))).push(segment@),
        ),
        url_len(*final(url)) <= url_len(*old(url)) + segment_growth(segment@),
        url_query_pairs(*final(url)) == url_query_pairs(*old(url)),
        url_query(*final(url)) == url_query(*old(url)),
        url_fragment(*final(url)) == url_fragment(*old(url)),
        url_before_path(*final(url)) == url_before_path(*old(url)),
{
    match url.path_segments_mut() {
        Ok(mut segments) => {
            segments.push(segment);
            Ok(())
        },
        Err(()) => Err(()),
    }
}

/// Calls `url::Url::query_pairs_mut` and `form_urlencoded::Serializer::append_pair`, which
/// appends `?` when there is no query, `&` when the query is not empty, then `key=value`
/// form-urlencoded. Both convert positions in the URL to `u32` and panic beyond it, which the
/// bound on the length rules out. A key and value of letters, digits and `_` are not encoded, and
/// the query's pairs then end with them; what becomes of other pairs is not stated. The part
/// before the path, the path and the fragment are kept as they were.
#[verifier::external_body]
fn url_append_query_pair(url: &mut reqwest::Url, key: &str, value: &str)
    requires
        url_len(*old(url)) + pair_growth(key@, value@) <= u32::MAX,
    ensures
        url_path_segments(*final(url)) == url_path_segments(*old(url)),
        is_plain_text(key@) && is_plain_text(value@) ==> url_query_pairs(*final(url)) == url_query_pairs(
            *old(url),
        ).push((key@, value@)),
        is_plain_text(key@) && is_plain_text(value@) ==> url_query(*final(url)) == Some(
            query_with_pair(url_query(*old(url)), key@, value@),
        ),
        url_len(*final(url)) <= url_len(*old(url)) + pair_growth(key@, value@),
        url_fragment(*final(url)) == url_fragment(*old(url)),
        url_before_path(*final(url)) == url_before_path(*old(url)),
{
    url.query_pairs_mut().append_pair(key, value);
}

/// Calls `http::StatusCode::from_u16` and `as_u16`: a status code exists exactly for the numbers
/// 100 to 999.
#[verifier::external_body]
fn http_status_from_u16(code: u16) -> (r: Option<u16>)
    ensures
        r == (if 100 <= code <= 999 { Some(code) } else { None::<u16> }),
{
    match reqwest::StatusCode::from_u16(code) {
        Ok(status) => Some(status.as_u16()),
        Err(_) => None,
    }
}

/// The number of the HTTP status that a `reqwest::Error` holds, if it holds one (what
/// `reqwest::Error::status` reads from the error).
pub uninterp spec fn reqwest_status(error: reqwest::Error) -> Option<u16>;

/// Calls `reqwest::Error::status` and `http::StatusCode::as_u16`: the HTTP status the error holds,
/// if any, which is a valid status code.
#[verifier::external_body]
fn reqwest_error_status(error: &reqwest::Error) -> (r: Option<u16>)
    ensures
        r == reqwest_status(*error),
        r matches Some(code) ==> 100 <= code <= 999,
{
    match error.status() {
        Some(status) => Some(status.as_u16()),
        None => None,
    }
}

// ---------------------------------------------------------------------------------------------
// Status codes, server messages, errors

/// An HTTP status code, one of 100 to 999.
#[derive(Clone, Copy, Debug, PartialEq, Eq)]
pub struct StatusCode(u16);

impl View for StatusCode {
    type V = u16;

    closed spec fn view(&self) -> u16 {
        self.0
    }
}

impl StatusCode {
    /// The status code with the number `code`, if there is one (`100..=999`).
    pub fn from_u16(code: u16) -> (r: Option<StatusCode>)
        ensures
            r is Some <==> 100 <= code <= 999,
            r matches Some(s) ==> s@ == code,
    {
        match http_status_from_u16(code) {
            Some(c) => Some(StatusCode(c)),
            None => None,
        }
    }

    /// `200 OK`.
    pub fn ok() -> (r: StatusCode)
        ensures
            r@ == 200,
    {
        StatusCode(200)
    }

    /// `404 Not Found`.
    pub fn not_found() -> (r: StatusCode)
        ensures
            r@ == 404,
    {
        StatusCode(404)
    }

    /// The number of the status code.
    pub fn as_u16(&self) -> (r: u16)
        ensures
            r == self@,
    {
        self.0
    }
}

/// The error body that the server sends with a non-`200` response.
#[derive(Clone, Debug)]
pub struct ErrorMessage {
    pub code: u16,
    pub message: String,
    pub stacktraces: Vec<String>,
}

/// An error of a request to the beacon node.
#[derive(Debug)]
pub enum Eth2Error {
    /// The request could not be sent, or its response body could not be read or decoded.
    Reqwest(reqwest::Error),
    /// The server answered with an error message.
    ServerMessage(ErrorMessage),
    /// The server answered with a status other than `200` and no readable error message.
    StatusCode(StatusCode),
}

/// The status that an error stands for: the one the failed request holds, the code of the
/// server's message when it is a valid status code, or the response's status.
pub open spec fn error_status_spec(error: Eth2Error) -> Option<u16> {
    match error {
        Eth2Error::Reqwest(e) => reqwest_status(e),
        Eth2Error::ServerMessage(msg) => if 100 <= msg.code <= 999 { Some(msg.code) } else { None },
        Eth2Error::StatusCode(status) => Some(status@),
    }
}

impl Eth2Error {
    /// The HTTP status of the error: that of the failed request, the code of the server's
    /// message when it is a valid status code, or the status of the response.
    pub fn status(&self) -> (r: Option<StatusCode>)
        ensures
            match error_status_spec(*self) {
                Some(code) => r matches Some(s) && s@ == code,
                None => r is None,
            },
    {
        match self {
            Eth2Error::Reqwest(error) => match reqwest_error_status(error) {
                Some(code) => Some(StatusCode(code)),
                None => None,
            },
            Eth2Error::ServerMessage(msg) => StatusCode::from_u16(msg.code),
            Eth2Error::StatusCode(status) => Some(*status),
        }
    }
}

/// The verdict on a response: accepted on `200 OK`; otherwise the server's message if its body
/// held one, else the status.
pub open spec fn ok_or_error_spec(status: StatusCode, message: Option<ErrorMessage>) -> Result<(), Eth2Error> {
    if status@ == 200 {
        Ok(())
    } else {
        match message {
            Some(msg) => Err(Eth2Error::ServerMessage(msg)),
            None => Err(Eth2Error::StatusCode(status)),
        }
    }
}

/// Judges a response by its status and, when the status is not `200`, by the error message that
/// could be decoded from its body (`None` if none could).
pub fn ok_or_error(status: StatusCode, message: Option<ErrorMessage>) -> (r: Result<(), Eth2Error>)
    ensures
        r == ok_or_error_spec(status, message),
{
    if status.0 == 200 {
        Ok(())
    } else {
        match message {
            Some(msg) => Err(Eth2Error::ServerMessage(msg)),
            None => Err(Eth2Error::StatusCode(status)),
        }
    }
}

/// For an endpoint where a missing resource is no error: `Ok(false)` for a `404` response,
/// whatever its body, or for an error whose status is `404`; `Ok(true)` to go on and decode the
/// body of a `200` response; else the error.
pub open spec fn ok_or_not_found_spec(status: StatusCode, message: Option<ErrorMessage>) -> Result<bool, Eth2Error> {
    if status@ == 404 {
        Ok(false)
    } else {
        match ok_or_error_spec(status, message) {
            Ok(()) => Ok(true),
            Err(e) => if error_status_spec(e) == Some(404u16) { Ok(false) } else { Err(e) },
        }
    }
}

/// Judges a response for an endpoint where a `404` means that the resource is absent:
/// `Ok(true)` to decode the body, `Ok(false)` when absent, else the error.
pub fn ok_or_not_found(status: StatusCode, message: Option<ErrorMessage>) -> (r: Result<bool, Eth2Error>)
    ensures
        r == ok_or_not_found_spec(status, message),
{
    if status.as_u16() == 404 {
        return Ok(false);
    }
    match ok_or_error(status, message) {
        Ok(()) => Ok(true),
        Err(e) => match e.status() {
            Some(s) => if s.as_u16() == 404 { Ok(false) } else { Err(e) },
            None => Err(e),
        },
    }
}

// ---------------------------------------------------------------------------------------------
// Endpoints

/// A request of the beacon-node API, by endpoint and parameters.
#[derive(Clone, Copy, Debug, PartialEq, Eq)]
pub enum Endpoint {
    /// `GET beacon/genesis`
    BeaconGenesis,
    /// `GET beacon/states/{state_id}/root`
    BeaconStatesRoot(StateId),
    /// `GET beacon/states/{state_id}/fork`
    BeaconStatesFork(StateId),
    /// `GET beacon/states/{state_id}/finality_checkpoints`
    BeaconStatesFinalityCheckpoints(StateId),
    /// `GET beacon/states/{state_id}/validators`
    BeaconStatesValidators(StateId),
    /// `GET beacon/states/{state_id}/committees?slot,index` (the epoch is not sent)
    BeaconStatesCommittees { state_id: StateId, epoch: Epoch, slot: Option<Slot>, index: Option<u64> },
    /// `GET beacon/states/{state_id}/validators/{validator_id}`
    BeaconStatesValidatorId(StateId, ValidatorId),
    /// `GET beacon/headers?slot,parent_root`
    BeaconHeaders { slot: Option<Slot>, parent_root: Option<Hash256> },
    /// `GET beacon/headers/{block_id}`
    BeaconHeadersBlockId(BlockId),
    /// `POST beacon/blocks`
    PostBeaconBlocks,
    /// `GET beacon/blocks` (the block id is not sent)
    BeaconBlocks(BlockId),
    /// `GET beacon/blocks/{block_id}/root`
    BeaconBlocksRoot(BlockId),
    /// `GET beacon/blocks/{block_id}/attestations`
    BeaconBlocksAttestations(BlockId),
    /// `GET` and `POST beacon/pool/attestations`
    BeaconPoolAttestations,
    /// `GET` and `POST beacon/pool/attester_slashings`
    BeaconPoolAttesterSlashings,
    /// `GET` and `POST beacon/pool/proposer_slashings`
    BeaconPoolProposerSlashings,
    /// `GET` and `POST beacon/pool/voluntary_exits`
    BeaconPoolVoluntaryExits,
}

/// The path and query of a request, below the API base (`eth/v1`).
#[derive(Clone, Debug)]
pub struct ApiPath {
    pub segments: Vec<String>,
    pub query: Vec<(String, String)>,
}

impl ApiPath {
    pub open spec fn segments_view(&self) -> Seq<Seq<char>> {
        self.segments@.map_values(|s: String| s@)
    }

    pub open spec fn query_view(&self) -> Seq<(Seq<char>, Seq<char>)> {
        self.query@.map_values(|p: (String, String)| (p.0@, p.1@))
    }
}

pub open spec fn states_path(id: StateId, last: Seq<char>) -> Seq<Seq<char>> {
    seq!["beacon"@, "states"@, id.text(), last]
}

pub open spec fn blocks_path(id: BlockId, last: Seq<char>) -> Seq<Seq<char>> {
    seq!["beacon"@, "blocks"@, id.text(), last]
}

pub open spec fn pool_path(last: Seq<char>) -> Seq<Seq<char>> {
    seq!["beacon"@, "pool"@, last]
}

impl Endpoint {
    /// The path segments of the endpoint, in order.
    pub open spec fn segments_spec(self) -> Seq<Seq<char>> {
        match self {
            Endpoint::BeaconGenesis => seq!["beacon"@, "genesis"@],
            Endpoint::BeaconStatesRoot(id) => states_path(id, "root"@),
            Endpoint::BeaconStatesFork(id) => states_path(id, "fork"@),
            Endpoint::BeaconStatesFinalityCheckpoints(id) => states_path(id, "finality_checkpoints"@),
            Endpoint::BeaconStatesValidators(id) => states_path(id, "validators"@),
            Endpoint::BeaconStatesCommittees { state_id, .. } => states_path(state_id, "committees"@),
            Endpoint::BeaconStatesValidatorId(id, validator_id) =>
                states_path(id, "validators"@).push(validator_id.text()),
            Endpoint::BeaconHeaders { .. } => seq!["beacon"@, "headers"@],
            Endpoint::BeaconHeadersBlockId(id) => seq!["beacon"@, "headers"@, id.text()],
            Endpoint::PostBeaconBlocks => seq!["beacon"@, "blocks"@],
            Endpoint::BeaconBlocks(_) => seq!["beacon"@, "blocks"@],
            Endpoint::BeaconBlocksRoot(id) => blocks_path(id, "root"@),
            Endpoint::BeaconBlocksAttestations(id) => blocks_path(id, "attestations"@),
            Endpoint::BeaconPoolAttestations => pool_path("attestations"@),
            Endpoint::BeaconPoolAttesterSlashings => pool_path("attester_slashings"@),
            Endpoint::BeaconPoolProposerSlashings => pool_path("proposer_slashings"@),
            Endpoint::BeaconPoolVoluntaryExits => pool_path("voluntary_exits"@),
        }
    }

    /// The query pairs of the endpoint, in order: each optional parameter that is given.
    pub open spec fn query_spec(self) -> Seq<(Seq<char>, Seq<char>)> {
        match self {
            Endpoint::BeaconStatesCommittees { slot, index, .. } =>
                optional_pair("slot"@, slot_text(slot)) + optional_pair("index"@, index_text(index)),
            Endpoint::BeaconHeaders { slot, parent_root } =>
                optional_pair("slot"@, slot_text(slot)) + optional_pair("parent_root"@, root_text(parent_root)),
            _ => seq![],
        }
    }

    /// The path and query of the endpoint below the API base.
    pub fn path(&self) -> (r: ApiPath)
        ensures
            r.segments_view() == self.segments_spec(),
            r.query_view() == self.query_spec(),
    {
        let mut segments: Vec<String> = Vec::new();
        let mut query: Vec<(String, String)> = Vec::new();
        push_segment(&mut segments, String::from_str("beacon"));
        match self {
            Endpoint::BeaconGenesis => {
                push_segment(&mut segments, String::from_str("genesis"));
            },
            Endpoint::BeaconStatesRoot(id) => {
                push_states(&mut segments, id, "root");
            },
            Endpoint::BeaconStatesFork(id) => {
                push_states(&mut segments, id, "fork");
            },
            Endpoint::BeaconStatesFinalityCheckpoints(id) => {
                push_states(&mut segments, id, "finality_checkpoints");
            },
            Endpoint::BeaconStatesValidators(id) => {
                push_states(&mut segments, id, "validators");
            },
            Endpoint::BeaconStatesCommittees { state_id, slot, index, .. } => {
                push_states(&mut segments, state_id, "committees");
                push_optional_pair(&mut query, "slot", match slot {
                    Some(s) => Some(s.to_string()),
                    None => None,
                });
                push_optional_pair(&mut query, "index", match index {
                    Some(i) => Some(decimal_string(*i)),
                    None => None,
                });
            },
            Endpoint::BeaconStatesValidatorId(id, validator_id) => {
                push_states(&mut segments, id, "validators");
                push_segment(&mut segments, validator_id.to_string());
            },
            Endpoint::BeaconHeaders { slot, parent_root } => {
                push_segment(&mut segments, String::from_str("headers"));
                push_optional_pair(&mut query, "slot", match slot {
                    Some(s) => Some(s.to_string()),
                    None => None,
                });
                push_optional_pair(&mut query, "parent_root", match parent_root {
                    Some(root) => Some(root.to_debug_string()),
                    None => None,
                });
            },
            Endpoint::BeaconHeadersBlockId(id) => {
                push_segment(&mut segments, String::from_str("headers"));
                push_segment(&mut segments, id.to_string());
            },
            Endpoint::PostBeaconBlocks => {
                push_segment(&mut segments, String::from_str("blocks"));
            },
            Endpoint::BeaconBlocks(_) => {
                push_segment(&mut segments, String::from_str("blocks"));
            },
            Endpoint::BeaconBlocksRoot(id) => {
                push_segment(&mut segments, String::from_str("blocks"));
                push_segment(&mut segments, id.to_string());
                push_segment(&mut segments, String::from_str("root"));
            },
            Endpoint::BeaconBlocksAttestations(id) => {
                push_segment(&mut segments, String::from_str("blocks"));
                push_segment(&mut segments, id.to_string());
                push_segment(&mut segments, String::from_str("attestations"));
            },
            Endpoint::BeaconPoolAttestations => {
                push_segment(&mut segments, String::from_str("pool"));
                push_segment(&mut segments, String::from_str("attestations"));
            },
            Endpoint::BeaconPoolAttesterSlashings => {
                push_segment(&mut segments, String::from_str("pool"));
                push_segment(&mut segments, String::from_str("attester_slashings"));
            },
            Endpoint::BeaconPoolProposerSlashings => {
                push_segment(&mut segments, String::from_str("pool"));
                push_segment(&mut segments, String::from_str("proposer_slashings"));
            },
            Endpoint::BeaconPoolVoluntaryExits => {
                push_segment(&mut segments, String::from_str("pool"));
                push_segment(&mut segments, String::from_str("voluntary_exits"));
            },
        }
        let r = ApiPath { segments, query };
        assert(r.segments_view() =~= self.segments_spec());
        assert(r.query_view() =~= self.query_spec());
        r
    }
}

impl Endpoint {
    /// Whether a `404` response to the endpoint means that what was asked for is absent (and,
    /// for posting a block, that the post is no error) rather than an error: so for every
    /// endpoint but the genesis and the operation pools.
    pub open spec fn allows_not_found_spec(self) -> bool {
        match self {
            Endpoint::BeaconGenesis => false,
            Endpoint::BeaconPoolAttestations => false,
            Endpoint::BeaconPoolAttesterSlashings => false,
            Endpoint::BeaconPoolProposerSlashings => false,
            Endpoint::BeaconPoolVoluntaryExits => false,
            _ => true,
        }
    }

    /// Whether a `404` response to the endpoint means that what was asked for is absent.
    pub fn allows_not_found(&self) -> (r: bool)
        ensures
            r == self.allows_not_found_spec(),
    {
        match self {
            Endpoint::BeaconGenesis => false,
            Endpoint::BeaconPoolAttestations => false,
            Endpoint::BeaconPoolAttesterSlashings => false,
            Endpoint::BeaconPoolProposerSlashings => false,
            Endpoint::BeaconPoolVoluntaryExits => false,
            _ => true,
        }
    }

    /// The verdict on a response to the endpoint: `Ok(true)` to go on (decode the body of a
    /// `GET`), `Ok(false)` when what was asked for is absent, else the error.
    pub open spec fn verdict_spec(self, status: StatusCode, message: Option<ErrorMessage>) -> Result<bool, Eth2Error> {
        if self.allows_not_found_spec() {
            ok_or_not_found_spec(status, message)
        } else {
            match ok_or_error_spec(status, message) {
                Ok(()) => Ok(true),
                Err(e) => Err(e),
            }
        }
    }

    /// Judges a response to the endpoint by its status and the error message decoded from its
    /// body (`None` if none could be): `Ok(true)` to go on, `Ok(false)` when what was asked for
    /// is absent, else the error.
    pub fn verdict(&self, status: StatusCode, message: Option<ErrorMessage>) -> (r: Result<bool, Eth2Error>)
        ensures
            r == self.verdict_spec(status, message),
    {
        if self.allows_not_found() {
            ok_or_not_found(status, message)
        } else {
            match ok_or_error(status, message) {
                Ok(()) => Ok(true),
                Err(e) => Err(e),
            }
        }
    }
}

pub open spec fn slot_text(slot: Option<Slot>) -> Option<Seq<char>> {
    match slot {
        Some(s) => Some(decimal_chars(s.0 as nat)),
        None => None,
    }
}

pub open spec fn index_text(index: Option<u64>) -> Option<Seq<char>> {
    match index {
        Some(i) => Some(decimal_chars(i as nat)),
        None => None,
    }
}

pub open spec fn root_text(root: Option<Hash256>) -> Option<Seq<char>> {
    match root {
        Some(r) => Some(prefixed_hex_chars(r.0@)),
        None => None,
    }
}

pub open spec fn string_text(value: Option<String>) -> Option<Seq<char>> {
    match value {
        Some(v) => Some(v@),
        None => None,
    }
}

/// No pair when the value is absent; the pair when it is present.
pub open spec fn optional_pair(key: Seq<char>, value: Option<Seq<char>>) -> Seq<(Seq<char>, Seq<char>)> {
    match value {
        Some(v) => seq![(key, v)],
        None => seq![],
    }
}

fn push_segment(segments: &mut Vec<String>, segment: String)
    ensures
        final(segments)@.map_values(|s: String| s@) == old(segments)@.map_values(|s: String| s@).push(
            segment@,
        ),
{
    segments.push(segment);
    assert(final(segments)@.map_values(|s: String| s@) =~= old(segments)@.map_values(|s: String| s@).push(
        segment@,
    ));
}

fn push_states(segments: &mut Vec<String>, id: &StateId, last: &str)
    ensures
        final(segments)@.map_values(|s: String| s@) == old(segments)@.map_values(|s: String| s@)
            + seq!["states"@, id.text(), last@],
{
    push_segment(segments, String::from_str("states"));
    push_segment(segments, id.to_string());
    push_segment(segments, String::from_str(last));
    assert(final(segments)@.map_values(|s: String| s@) =~= old(segments)@.map_values(|s: String| s@)
        + seq!["states"@, id.text(), last@]);
}

fn push_optional_pair(query: &mut Vec<(String, String)>, key: &str, value: Option<String>)
    ensures
        final(query)@.map_values(|p: (String, String)| (p.0@, p.1@)) == old(query)@.map_values(
            |p: (String, String)| (p.0@, p.1@),
        ) + optional_pair(key@, string_text(value)),
{
    match value {
        Some(v) => {
            query.push((String::from_str(key), v));
        },
        None => {},
    }
    assert(final(query)@.map_values(|p: (String, String)| (p.0@, p.1@)) =~= old(query)@.map_values(
        |p: (String, String)| (p.0@, p.1@),
    ) + optional_pair(key@, string_text(value)));
}

// ---------------------------------------------------------------------------------------------
// The client's server URL

/// The location of a beacon node's API: the server URL with `eth/v1` appended to its path.
pub struct BeaconNodeClient {
    server: reqwest::Url,
}

impl BeaconNodeClient {
    /// The base URL's path ends in a non-empty segment.
    #[verifier::type_invariant]
    closed spec fn base_has_path(self) -> bool {
        url_path_segments(self.server) matches Some(v) && v.len() > 0 && v.last().len() > 0
    }

    /// The API base URL that the client holds.
    pub closed spec fn base_url(&self) -> reqwest::Url {
        self.server
    }

    /// The path segments of the API base URL.
    pub closed spec fn base_segments(&self) -> Seq<Seq<char>> {
        segments_below_root(url_path_segments(self.server))
    }

    /// Appends `eth/v1` to the path of `server`. Returns `Err(())` if the URL cannot be a base
    /// (it then has no path to append to), or if it could then be too long for the positions in
    /// it to fit in `u32`.
    pub fn new(server: reqwest::Url) -> (r: Result<Self, ()>)
        ensures
            r is Err <==> url_cannot_be_a_base(server) || url_len(server) + api_base_growth() > u32::MAX,
            r matches Ok(c) ==> {
                &&& url_path_segments(c.base_url()) == Some(
                    segments_below_root(url_path_segments(server)) + seq!["eth"@, "v1"@],
                )
                &&& c.base_segments() == segments_below_root(url_path_segments(server)) + seq![
                    "eth"@,
                    "v1"@,
                ]
                &&& url_query_pairs(c.base_url()) == url_query_pairs(server)
                &&& url_query(c.base_url()) == url_query(server)
                &&& url_fragment(c.base_url()) == url_fragment(server)
                &&& url_before_path(c.base_url()) == url_before_path(server)
            },
    {
        proof {
            reveal_strlit("eth");
            reveal_strlit("v1");
            assert(is_plain_text("eth"@)) by {
                assert forall|i: int| 0 <= i < 3 implies #[trigger] is_plain_char("eth"@[i]) by {}
            }
            assert(is_plain_text("v1"@)) by {
                assert forall|i: int| 0 <= i < 2 implies #[trigger] is_plain_char("v1"@[i]) by {}
            }
            assert(segment_growth("eth"@) + segment_growth("v1"@) == api_base_growth());
        }
        if url_byte_len(&server) > 4294967288 {
            return Err(());
        }
        let ghost before = segments_below_root(url_path_segments(server));
        let mut server = server;
        match url_push_path_segment(&mut server, "eth") {
            Err(()) => return Err(()),
            Ok(()) => {},
        }
        assert(url_path_segments(server) == Some(before.push("eth"@)));
        assert(segments_below_root(url_path_segments(server)) == before.push("eth"@)) by {
            assert(before.push("eth"@).last().len() == 3);
            assert(before.push("eth"@) != seq![Seq::<char>::empty()]) by {
                if before.push("eth"@) == seq![Seq::<char>::empty()] {
                    assert(seq![Seq::<char>::empty()].last().len() == 0);
                }
            }
        }
        match url_push_path_segment(&mut server, "v1") {
            Err(()) => Err(()),
            Ok(()) => {
                assert(before.push("eth"@).push("v1"@) =~= before + seq!["eth"@, "v1"@]);
                let c = BeaconNodeClient { server };
                assert(c.base_segments() == before + seq!["eth"@, "v1"@]) by {
                    assert((before + seq!["eth"@, "v1"@]).last().len() == 2);
                    assert(before + seq!["eth"@, "v1"@] != seq![Seq::<char>::empty()]) by {
                        if before + seq!["eth"@, "v1"@] == seq![Seq::<char>::empty()] {
                            assert(seq![Seq::<char>::empty()].last().len() == 0);
                        }
                    }
                }
                Ok(c)
            },
        }
    }

    /// The API base URL (the server URL with `eth/v1` appended).
    pub fn server(&self) -> (r: &reqwest::Url)
        ensures
            *r == self.base_url(),
    {
        &self.server
    }

    /// The URL of a request: the API base with the endpoint's segments appended to its path, and
    /// the endpoint's query pairs appended to its query, in order. Returns `Err(())` if the result
    /// could be too long for the positions in it to fit in `u32`.
    pub fn endpoint_url(&self, endpoint: &Endpoint) -> (r: Result<reqwest::Url, ()>)
        ensures
            r is Err <==> url_len(self.base_url()) + path_growth(endpoint.segments_spec()) + query_growth(
                endpoint.query_spec(),
            ) > u32::MAX,
            r matches Ok(u) ==> {
                &&& url_path_segments(u) == Some(self.base_segments() + endpoint.segments_spec())
                &&& url_query_pairs(u) == url_query_pairs(self.base_url()) + endpoint.query_spec()
                &&& url_query(u) == query_with_pairs(url_query(self.base_url()), endpoint.query_spec())
                &&& url_fragment(u) == url_fragment(self.base_url())
                &&& url_before_path(u) == url_before_path(self.base_url())
            },
    {
        proof {
            use_type_invariant(self);
            lemma_endpoint_plain(*endpoint);
        }
        let path = endpoint.path();
        let ghost base = self.base_segments();
        let ghost base_len = url_len(self.base_url());
        let ghost segs = path.segments_view();
        let ghost pairs = path.query_view();
        proof {
            lemma_path_growth_prefix(segs, 0);
            lemma_query_growth_prefix(pairs, 0);
        }
        let len = url_byte_len(&self.server);
        if len as u64 > 4294967295u64 {
            return Err(());
        }
        let mut total: u64 = len as u64;
        let mut url = url_clone(&self.server);
        assert(url_path_segments(url) == Some(base));
        assert(segs.take(0) =~= Seq::<Seq<char>>::empty());
        let n = path.segments.len();
        for i in 0..n
            invariant
                n == path.segments@.len(),
                segs == path.segments_view(),
                segs == endpoint.segments_spec(),
                pairs == endpoint.query_spec(),
                base_len == url_len(self.base_url()),
                forall|k: int| 0 <= k < segs.len() ==> #[trigger] is_plain_text(segs[k]),
                base.len() > 0 && base.last().len() > 0,
                url_path_segments(url) == Some(base + segs.take(i as int)),
                url_query_pairs(url) == url_query_pairs(self.base_url()),
                url_query(url) == url_query(self.base_url()),
                url_fragment(url) == url_fragment(self.base_url()),
                url_before_path(url) == url_before_path(self.base_url()),
                total == base_len + path_growth(segs.take(i as int)),
                total <= u32::MAX,
                url_len(url) <= total,
                path_growth(segs) >= 0,
                query_growth(pairs) >= 0,
        {
            assert(path.segments@[i as int]@ == segs[i as int]);
            assert(is_plain_text(segs[i as int]));
            proof {
                assert(segs.take(i + 1).drop_last() =~= segs.take(i as int));
                lemma_path_growth_prefix(segs, i + 1);
            }
            let k = path.segments[i].as_str().unicode_len();
            if k as u64 > 4294967295u64 {
                return Err(());
            }
            let add: u64 = 1 + k as u64;
            if total + add > 4294967295u64 {
                return Err(());
            }
            total = total + add;
            assert(segments_below_root(url_path_segments(url)) == base + segs.take(i as int)) by {
                let cur = base + segs.take(i as int);
                assert(cur.last().len() > 0) by {
                    if i == 0 {
                        assert(cur =~= base);
                    } else {
                        assert(cur.last() == segs[i - 1]);
                        assert(is_plain_text(segs[i - 1]));
                    }
                }
                assert(cur != seq![Seq::<char>::empty()]) by {
                    if cur == seq![Seq::<char>::empty()] {
                        assert(seq![Seq::<char>::empty()].last().len() == 0);
                    }
                }
            }
            match url_push_path_segment(&mut url, path.segments[i].as_str()) {
                Err(()) => return Err(()),
                Ok(()) => {},
            }
            assert(base + segs.take(i + 1) =~= (base + segs.take(i as int)).push(segs[i as int]));
        }
        assert(segs.take(n as int) =~= segs);
        assert(pairs.take(0) =~= Seq::<(Seq<char>, Seq<char>)>::empty());
        let m = path.query.len();
        for j in 0..m
            invariant
                m == path.query@.len(),
                pairs == path.query_view(),
                pairs == endpoint.query_spec(),
                segs == endpoint.segments_spec(),
                base_len == url_len(self.base_url()),
                forall|k: int| 0 <= k < pairs.len() ==> is_plain_pair(#[trigger] pairs[k]),
                url_path_segments(url) == Some(base + segs),
                url_query_pairs(url) == url_query_pairs(self.base_url()) + pairs.take(j as int),
                url_query(url) == query_with_pairs(url_query(self.base_url()), pairs.take(j as int)),
                url_fragment(url) == url_fragment(self.base_url()),
                url_before_path(url) == url_before_path(self.base_url()),
                total == base_len + path_growth(segs) + query_growth(pairs.take(j as int)),
                total <= u32::MAX,
                url_len(url) <= total,
        {
            let pair = &path.query[j];
            assert(pairs.len() == m);
            assert(pairs[j as int] == (pair.0@, pair.1@));
            assert(is_plain_pair(pairs[j as int]));
            proof {
                assert(pairs.take(j + 1).drop_last() =~= pairs.take(j as int));
                lemma_query_growth_prefix(pairs, j + 1);
            }
            let k1 = pair.0.as_str().unicode_len();
            let k2 = pair.1.as_str().unicode_len();
            if k1 as u64 > 4294967295u64 || k2 as u64 > 4294967295u64 {
                return Err(());
            }
            let add: u64 = 2 + k1 as u64 + k2 as u64;
            if total + add > 4294967295u64 {
                return Err(());
            }
            total = total + add;
            url_append_query_pair(&mut url, pair.0.as_str(), pair.1.as_str());
            assert(pairs.take(j + 1) =~= pairs.take(j as int).push(pairs[j as int]));
        }
        assert(pairs.take(m as int) =~= pairs);
        Ok(url)
    }
}

/// The most that appending `eth/v1` to a URL's path lengthens it: `/eth` and `/v1`.
pub open spec fn api_base_growth() -> nat {
    7
}

/// The most that appending `segments` to a URL's path lengthens it.
pub open spec fn path_growth(segments: Seq<Seq<char>>) -> int
    decreases segments.len(),
{
    if segments.len() == 0 {
        0
    } else {
        path_growth(segments.drop_last()) + segment_growth(segments.last())
    }
}

/// The most that appending `pairs` to a URL's query lengthens it.
pub open spec fn query_growth(pairs: Seq<(Seq<char>, Seq<char>)>) -> int
    decreases pairs.len(),
{
    if pairs.len() == 0 {
        0
    } else {
        query_growth(pairs.drop_last()) + pair_growth(pairs.last().0, pairs.last().1)
    }
}

proof fn lemma_path_growth_prefix(segments: Seq<Seq<char>>, i: int)
    requires
        0 <= i <= segments.len(),
    ensures
        0 <= path_growth(segments.take(i)) <= path_growth(segments),
    decreases segments.len(),
{
    if segments.len() == 0 {
        assert(segments.take(i) =~= segments);
    } else if i == segments.len() {
        assert(segments.take(i) =~= segments);
        lemma_path_growth_prefix(segments.drop_last(), i - 1);
    } else {
        lemma_path_growth_prefix(segments.drop_last(), i);
        assert(segments.drop_last().take(i) =~= segments.take(i));
    }
}

proof fn lemma_query_growth_prefix(pairs: Seq<(Seq<char>, Seq<char>)>, i: int)
    requires
        0 <= i <= pairs.len(),
    ensures
        0 <= query_growth(pairs.take(i)) <= query_growth(pairs),
    decreases pairs.len(),
{
    if pairs.len() == 0 {
        assert(pairs.take(i) =~= pairs);
    } else if i == pairs.len() {
        assert(pairs.take(i) =~= pairs);
        lemma_query_growth_prefix(pairs.drop_last(), i - 1);
    } else {
        lemma_query_growth_prefix(pairs.drop_last(), i);
        assert(pairs.drop_last().take(i) =~= pairs.take(i));
    }
}

/// The decimal rendering is plain text.
proof fn lemma_decimal_plain(n: nat)
    ensures
        is_plain_text(decimal_chars(n)),
{
    crate::text::lemma_decimal_chars(n);
    let s = decimal_chars(n);
    assert forall|i: int| 0 <= i < s.len() implies #[trigger] is_plain_char(s[i]) by {
        assert(crate::text::is_digit(s[i]));
    }
}

/// The `0x` hexadecimal rendering is plain text.
proof fn lemma_hex_plain(bytes: Seq<u8>)
    ensures
        is_plain_text(prefixed_hex_chars(bytes)),
{
    crate::text::lemma_hex_chars(bytes);
    let h = crate::text::hex_chars(bytes);
    let s = prefixed_hex_chars(bytes);
    assert forall|i: int| 0 <= i < s.len() implies #[trigger] is_plain_char(s[i]) by {
        if i >= 2 {
            let k = i - 2;
            let b = k / 2;
            assert(s[i] == h[k]);
            if k % 2 == 0 {
                assert(k == 2 * b);
                assert(h[2 * b] == crate::text::hex_char(bytes[b] as nat / 16));
            } else {
                assert(k == 2 * b + 1);
                assert(h[2 * b] == crate::text::hex_char(bytes[b] as nat / 16));
            }
        }
    }
}

proof fn lemma_state_id_plain(id: StateId)
    ensures
        is_plain_text(id.text()),
{
    match id {
        StateId::Slot(s) => lemma_decimal_plain(s.0 as nat),
        StateId::Root(r) => lemma_hex_plain(r.0@),
        _ => {},
    }
}

/// Every path segment and query key and value of an endpoint is plain text.
proof fn lemma_endpoint_plain(endpoint: Endpoint)
    ensures
        forall|k: int| 0 <= k < endpoint.segments_spec().len() ==> #[trigger] is_plain_text(endpoint.segments_spec()[k]),
        forall|k: int| 0 <= k < endpoint.query_spec().len() ==> is_plain_pair(#[trigger] endpoint.query_spec()[k]),
{
    reveal_strlit("beacon");
    reveal_strlit("genesis");
    reveal_strlit("states");
    reveal_strlit("root");
    reveal_strlit("fork");
    reveal_strlit("finality_checkpoints");
    reveal_strlit("validators");
    reveal_strlit("committees");
    reveal_strlit("headers");
    reveal_strlit("blocks");
    reveal_strlit("attestations");
    reveal_strlit("pool");
    reveal_strlit("attester_slashings");
    reveal_strlit("proposer_slashings");
    reveal_strlit("voluntary_exits");
    reveal_strlit("slot");
    reveal_strlit("index");
    reveal_strlit("parent_root");
    match endpoint {
        Endpoint::BeaconStatesRoot(id) => lemma_state_id_plain(id),
        Endpoint::BeaconStatesFork(id) => lemma_state_id_plain(id),
        Endpoint::BeaconStatesFinalityCheckpoints(id) => lemma_state_id_plain(id),
        Endpoint::BeaconStatesValidators(id) => lemma_state_id_plain(id),
        Endpoint::BeaconStatesCommittees { state_id, slot, index, .. } => {
            lemma_state_id_plain(state_id);
            match slot {
                Some(s) => lemma_decimal_plain(s.0 as nat),
                None => {},
            }
            match index {
                Some(i) => lemma_decimal_plain(i as nat),
                None => {},
            }
        },
        Endpoint::BeaconStatesValidatorId(id, validator_id) => {
            lemma_state_id_plain(id);
            match validator_id {
                ValidatorId::PublicKey(pk) => lemma_hex_plain(pk.0@),
                ValidatorId::Index(i) => lemma_decimal_plain(i as nat),
            }
        },
        Endpoint::BeaconHeaders { slot, parent_root } => {
            match slot {
                Some(s) => lemma_decimal_plain(s.0 as nat),
                None => {},
            }
            match parent_root {
                Some(r) => lemma_hex_plain(r.0@),
                None => {},
            }
        },
        Endpoint::BeaconHeadersBlockId(id) => lemma_state_id_plain(id.as_state_id()),
        Endpoint::BeaconBlocksRoot(id) => lemma_state_id_plain(id.as_state_id()),
        Endpoint::BeaconBlocksAttestations(id) => lemma_state_id_plain(id.as_state_id()),
        _ => {},
    }
}

// ---------------------------------------------------------------------------------------------
// Laws

/// A `404` response to an endpoint that allows it gives an absent resource (for posting a
/// block: no error), whatever the response's body.
pub proof fn lemma_not_found_is_absent(endpoint: Endpoint, status: StatusCode, message: Option<ErrorMessage>)
    requires
        endpoint.allows_not_found_spec(),
        status@ == 404,
    ensures
        ok_or_not_found_spec(status, message) == Ok::<bool, Eth2Error>(false),
        endpoint.verdict_spec(status, message) == Ok::<bool, Eth2Error>(false),
{
}

/// A `404` response to the genesis or an operation pool is an error, as any other status than
/// `200` is there.
pub proof fn lemma_not_found_is_error_elsewhere(endpoint: Endpoint, status: StatusCode, message: Option<ErrorMessage>)
    requires
        !endpoint.allows_not_found_spec(),
        status@ == 404,
    ensures
        endpoint.verdict_spec(status, message) is Err,
        ok_or_error_spec(status, message) matches Err(e) && endpoint.verdict_spec(status, message) == Err::<bool, Eth2Error>(e),
{
}

/// A `200` response is always accepted, whatever its body and the endpoint.
pub proof fn lemma_ok_is_accepted(endpoint: Endpoint, status: StatusCode, message: Option<ErrorMessage>)
    requires
        status@ == 200,
    ensures
        ok_or_error_spec(status, message) == Ok::<(), Eth2Error>(()),
        ok_or_not_found_spec(status, message) == Ok::<bool, Eth2Error>(true),
        endpoint.verdict_spec(status, message) == Ok::<bool, Eth2Error>(true),
{
}

/// A response whose status is neither `200` nor `404`, with no readable message, is the error
/// of its status, whatever the endpoint.
pub proof fn lemma_other_status_is_error(endpoint: Endpoint, status: StatusCode)
    requires
        status@ != 200,
        status@ != 404,
    ensures
        ok_or_error_spec(status, None) == Err::<(), Eth2Error>(Eth2Error::StatusCode(status)),
        ok_or_not_found_spec(status, None) == Err::<bool, Eth2Error>(Eth2Error::StatusCode(status)),
        endpoint.verdict_spec(status, None) == Err::<bool, Eth2Error>(Eth2Error::StatusCode(status)),
{
}

/// The query of a headers request: the `slot` pair when a slot is given, then the
/// `parent_root` pair, whose value is `0x` and then, for each of the root's 32 bytes in order,
/// two lower-case hexadecimal digits whose values give back the byte.
pub proof fn lemma_headers_parent_root_query(slot: Option<Slot>, root: Hash256)
    ensures
        ({
            let q = (Endpoint::BeaconHeaders { slot, parent_root: Some(root) }).query_spec();
            let v = q.last().1;
            &&& q.len() == (if slot is Some { 2int } else { 1int })
            &&& slot matches Some(s) ==> q[0] == ("slot"@, decimal_chars(s.0 as nat))
            &&& q.last().0 == "parent_root"@
            &&& v.len() == 66
            &&& v[0] == '0'
            &&& v[1] == 'x'
            &&& forall|i: int|
                #![trigger root.0@[i]]
                0 <= i < 32 ==> {
                    &&& v[2 + 2 * i] == hex_char(root.0@[i] as nat / 16)
                    &&& v[3 + 2 * i] == hex_char(root.0@[i] as nat % 16)
                    &&& is_lower_hex_digit(v[2 + 2 * i])
                    &&& is_lower_hex_digit(v[3 + 2 * i])
                    &&& hex_value(v[2 + 2 * i]) * 16 + hex_value(v[3 + 2 * i]) == root.0@[i]
                }
        }),
{
    lemma_prefixed_hex_digits(root.0@);
}

/// The path of a request for a validator by public key ends in one segment: `0x` and then, for
/// each of the key's 48 bytes in order, two lower-case hexadecimal digits.
pub proof fn lemma_validator_key_segment(state_id: StateId, pk: PublicKeyBytes)
    ensures
        ({
            let segs = Endpoint::BeaconStatesValidatorId(state_id, ValidatorId::PublicKey(pk)).segments_spec();
            let t = segs.last();
            &&& segs.len() == 5
            &&& segs[3] == "validators"@
            &&& t.len() == 98
            &&& t[0] == '0'
            &&& t[1] == 'x'
            &&& forall|i: int|
                #![trigger pk.0@[i]]
                0 <= i < 48 ==> {
                    &&& t[2 + 2 * i] == hex_char(pk.0@[i] as nat / 16)
                    &&& t[3 + 2 * i] == hex_char(pk.0@[i] as nat % 16)
                }
        }),
{
    crate::types::lemma_validator_key_text(pk);
}

/// The query of a committees request: the `slot` pair (the slot in decimal) when a slot is
/// given, then the `index` pair (the index in decimal) when an index is given; the epoch is not
/// sent.
pub proof fn lemma_committees_query(state_id: StateId, epoch: Epoch, slot: Option<Slot>, index: Option<u64>)
    ensures
        ({
            let q = (Endpoint::BeaconStatesCommittees { state_id, epoch, slot, index }).query_spec();
            &&& q.len() == (if slot is Some { 1int } else { 0int }) + (if index is Some { 1int } else { 0int })
            &&& slot matches Some(s) ==> q[0] == ("slot"@, decimal_chars(s.0 as nat))
            &&& index matches Some(n) ==> q.last() == ("index"@, decimal_chars(n as nat))
            &&& (Endpoint::BeaconStatesCommittees { state_id, epoch, slot, index }).segments_spec() == seq![
                "beacon"@,
                "states"@,
                state_id.text(),
                "committees"@,
            ]
        }),
{
}

} // verus!
