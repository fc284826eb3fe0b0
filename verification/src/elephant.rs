//! What runner exchanges with elephant over its socket.
//!
//! Wire format (see `internal/comm/comm.go` in elephant):
//! - request:  `[type u8][format u8][length u32 BE][payload]`
//! - response: `[type u8][length u32 BE][payload]`
//!
//! Payloads are JSON (format 1), so no protobuf code has to be generated.
use vstd::prelude::*;

use crate::config::views;
use crate::text::owned;

verus! {

/// Request: search.
pub const REQ_QUERY: u8 = 0;

/// Request: run an action of an item.
pub const REQ_ACTIVATE: u8 = 1;

/// Request: push notifications of a provider.
pub const REQ_SUBSCRIBE: u8 = 2;

/// Request: provider-level actions.
pub const REQ_STATE: u8 = 4;

/// Payload format: JSON.
pub const FORMAT_JSON: u8 = 1;

/// Response: a result of the current query.
pub const RESP_ITEM: u8 = 0;

/// Response: an update of a result already shown.
pub const RESP_ASYNC_ITEM: u8 = 1;

/// Response: an activation is finished.
pub const RESP_ACTIVATION_FINISHED: u8 = 2;

/// Response: provider-level actions.
pub const RESP_PROVIDER_STATE: u8 = 3;

/// On a subscription connection, type 0 means "data changed".
pub const RESP_SUBSCRIPTION_CHANGED: u8 = 0;

/// Response: the query has no results.
pub const RESP_NO_RESULTS: u8 = 254;

/// Response: the query is done.
pub const RESP_QUERY_DONE: u8 = 255;

/// Where a result matched the query: the field and the matching character positions.
#[derive(Debug)]
pub struct FuzzyInfo {
    pub field: String,
    pub positions: Vec<i32>,
}

/// What a row of the list stands for: only `Result` comes from elephant, runner
/// builds the others.
#[derive(Clone, Copy, Debug, PartialEq, Eq, Structural)]
pub enum Kind {
    Result,
    /// Provider-level action (such as turning bluetooth on or off).
    ProviderAction,
    /// Entry of the provider list that `/` shows.
    Provider,
}

impl Default for Kind {
    fn default() -> (r: Self)
        ensures
            r == Kind::Result,
    {
        Kind::Result
    }
}

/// A row of the list.
#[derive(Debug)]
pub struct Item {
    pub identifier: String,
    pub text: String,
    pub subtext: String,
    pub icon: String,
    pub provider: String,
    pub fuzzyinfo: Option<FuzzyInfo>,
    pub actions: Vec<String>,
    pub kind: Kind,
}

/// `FuzzyInfo` over plain values.
#[verifier::ext_equal]
pub struct FuzzyModel {
    pub field: Seq<char>,
    pub positions: Seq<i32>,
}

/// `Item` over plain values.
#[verifier::ext_equal]
pub struct ItemModel {
    pub identifier: Seq<char>,
    pub text: Seq<char>,
    pub subtext: Seq<char>,
    pub icon: Seq<char>,
    pub provider: Seq<char>,
    pub fuzzyinfo: Option<FuzzyModel>,
    pub actions: Seq<Seq<char>>,
    pub kind: Kind,
}

impl View for FuzzyInfo {
    type V = FuzzyModel;

    open spec fn view(&self) -> FuzzyModel {
        FuzzyModel { field: self.field@, positions: self.positions@ }
    }
}

impl View for Item {
    type V = ItemModel;

    open spec fn view(&self) -> ItemModel {
        ItemModel {
            identifier: self.identifier@,
            text: self.text@,
            subtext: self.subtext@,
            icon: self.icon@,
            provider: self.provider@,
            fuzzyinfo: match self.fuzzyinfo {
                Some(f) => Some(f@),
                None => None,
            },
            actions: views(self.actions@),
            kind: self.kind,
        }
    }
}

/// Copies of the strings of `v`.
pub fn clone_strings(v: &[String]) -> (r: Vec<String>)
    ensures
        views(r@) == views(v@),
{
    let mut r: Vec<String> = Vec::new();
    let mut i: usize = 0;
    while i < v.len()
        invariant
            i <= v@.len(),
            views(r@) == views(v@).take(i as int),
        decreases v@.len() - i,
    {
        let ghost before = r@;
        r.push(owned(v[i].as_str()));
        assert(views(r@) =~= views(before).push(v@[i as int]@));
        assert(views(v@).take(i + 1) =~= views(v@).take(i as int).push(v@[i as int]@));
        i = i + 1;
    }
    assert(views(v@).take(v@.len() as int) == views(v@));
    r
}

/// A copy of `v`.
fn clone_i32s(v: &[i32]) -> (r: Vec<i32>)
    ensures
        r@ == v@,
{
    let mut r: Vec<i32> = Vec::new();
    let mut i: usize = 0;
    while i < v.len()
        invariant
            i <= v@.len(),
            r@ == v@.take(i as int),
        decreases v@.len() - i,
    {
        r.push(v[i]);
        assert(v@.take(i + 1) == v@.take(i as int).push(v@[i as int]));
        i = i + 1;
    }
    assert(v@.take(v@.len() as int) == v@);
    r
}

impl Clone for FuzzyInfo {
    fn clone(&self) -> (r: Self)
        ensures
            r@ == self@,
    {
        FuzzyInfo { field: owned(self.field.as_str()), positions: clone_i32s(self.positions.as_slice()) }
    }
}

impl Clone for Item {
    fn clone(&self) -> (r: Self)
        ensures
            r@ == self@,
    {
        Item {
            identifier: owned(self.identifier.as_str()),
            text: owned(self.text.as_str()),
            subtext: owned(self.subtext.as_str()),
            icon: owned(self.icon.as_str()),
            provider: owned(self.provider.as_str()),
            fuzzyinfo: match &self.fuzzyinfo {
                Some(f) => Some(f.clone()),
                None => None,
            },
            actions: clone_strings(self.actions.as_slice()),
            kind: self.kind,
        }
    }
}

impl Default for FuzzyInfo {
    fn default() -> (r: Self)
        ensures
            r@ == (FuzzyModel { field: Seq::empty(), positions: Seq::empty() }),
    {
        FuzzyInfo { field: String::new(), positions: Vec::new() }
    }
}

impl Default for Item {
    fn default() -> (r: Self)
        ensures
            r@ == (ItemModel {
                identifier: Seq::empty(),
                text: Seq::empty(),
                subtext: Seq::empty(),
                icon: Seq::empty(),
                provider: Seq::empty(),
                fuzzyinfo: None,
                actions: Seq::empty(),
                kind: Kind::Result,
            }),
    {
        let r = Item {
            identifier: String::new(),
            text: String::new(),
            subtext: String::new(),
            icon: String::new(),
            provider: String::new(),
            fuzzyinfo: None,
            actions: Vec::new(),
            kind: Kind::Result,
        };
        assert(views(r.actions@) =~= Seq::empty());
        r
    }
}

/// What comes from elephant.
#[derive(Debug)]
pub enum Event {
    /// A result of the query `query` (`qid` names the request on the server side).
    Item { qid: i32, query: String, item: Item },
    /// Asynchronous update of an item already shown.
    Update { item: Item },
    /// Provider-level actions.
    State { provider: String, actions: Vec<String> },
    /// A notification from a subscription, such as `menus:<menu to open>`.
    Subscription(String),
    NoResults,
    Done,
    Disconnected(String),
}

// ---------------------------------------------------------------------------
// Frames
// ---------------------------------------------------------------------------

/// The four bytes of `n` in big-endian order.
pub open spec fn be_bytes(n: u32) -> Seq<u8> {
    seq![
        (n / 0x100_0000) as u8,
        ((n / 0x1_0000) % 0x100) as u8,
        ((n / 0x100) % 0x100) as u8,
        (n % 0x100) as u8,
    ]
}

/// The number that four big-endian bytes encode.
pub open spec fn be_value(b: Seq<u8>) -> int {
    b[0] * 0x100_0000 + b[1] * 0x1_0000 + b[2] * 0x100 + b[3]
}

/// The request frame for a payload: type, JSON format, the payload's length
/// (modulo 2³², as a `u32` holds it) and the payload.
pub open spec fn request_frame(kind: u8, payload: Seq<u8>) -> Seq<u8> {
    seq![kind, FORMAT_JSON] + be_bytes((payload.len() % 0x1_0000_0000) as u32) + payload
}

/// Frames a request for elephant's socket.
pub fn encode_request(kind: u8, payload: &[u8]) -> (r: Vec<u8>)
    ensures
        r@ == request_frame(kind, payload@),
{
    let len = payload.len() as u64;
    let n: u32 = (len % 0x1_0000_0000) as u32;
    let mut r: Vec<u8> = Vec::new();
    r.push(kind);
    r.push(FORMAT_JSON);
    r.push((n / 0x100_0000) as u8);
    r.push(((n / 0x1_0000) % 0x100) as u8);
    r.push(((n / 0x100) % 0x100) as u8);
    r.push((n % 0x100) as u8);
    let ghost head = r@;
    assert(head == seq![kind, FORMAT_JSON] + be_bytes(n));
    let mut i: usize = 0;
    while i < payload.len()
        invariant
            i <= payload@.len(),
            r@ == head + payload@.take(i as int),
        decreases payload@.len() - i,
    {
        r.push(payload[i]);
        assert(payload@.take(i + 1) == payload@.take(i as int).push(payload@[i as int]));
        i = i + 1;
    }
    assert(payload@.take(payload@.len() as int) == payload@);
    r
}

/// The header of a response frame: its type and the length of the payload that follows.
pub fn response_header(header: &[u8]) -> (r: (u8, u32))
    requires
        header@.len() == 5,
    ensures
        r.0 == header@[0],
        r.1 == be_value(header@.subrange(1, 5)),
{
    let n = (header[1] as u32) * 0x100_0000 + (header[2] as u32) * 0x1_0000 + (header[3] as u32)
        * 0x100 + header[4] as u32;
    (header[0], n)
}

/// The length that a request frame carries is the length that a header with the same
/// four bytes reads: framing does not alter the payload's length below 2³².
pub proof fn lemma_frame_length(kind: u8, payload: Seq<u8>)
    requires
        payload.len() < 0x1_0000_0000,
    ensures
        request_frame(kind, payload).len() == payload.len() + 6,
        be_value(request_frame(kind, payload).subrange(2, 6)) == payload.len(),
        request_frame(kind, payload).subrange(6, payload.len() + 6int) == payload,
        request_frame(kind, payload)[0] == kind,
{
    let f = request_frame(kind, payload);
    let n = payload.len() as u32;
    assert(f.subrange(2, 6) == be_bytes(n));
    lemma_be_roundtrip(n);
    assert(f.subrange(6, payload.len() + 6int) == payload);
}

/// Reading the big-endian bytes of `n` gives back `n`.
pub proof fn lemma_be_roundtrip(n: u32)
    ensures
        be_value(be_bytes(n)) == n,
{
    let b = be_bytes(n);
    assert(b[0] == n / 0x100_0000);
    assert(b[1] == (n / 0x1_0000) % 0x100);
    assert(b[2] == (n / 0x100) % 0x100);
    assert(b[3] == n % 0x100);
    assert((n / 0x100_0000) * 0x100_0000 + ((n / 0x1_0000) % 0x100) * 0x1_0000 + ((n / 0x100)
        % 0x100) * 0x100 + n % 0x100 == n) by (nonlinear_arith);
}

// ---------------------------------------------------------------------------
// Responses
// ---------------------------------------------------------------------------

/// What the payload of a response is read as.
#[derive(Clone, Copy, Debug, PartialEq, Eq, Structural)]
pub enum PayloadKind {
    /// A `QueryResponse`: `query`, `item`, `qid`.
    Query,
    /// A `StateResponse`: `provider`, `actions`.
    State,
    /// Nothing is read.
    Unread,
}

/// What the payload of a response of type `kind` is read as.
pub fn payload_kind(kind: u8) -> (r: PayloadKind)
    ensures
        r == (if kind == RESP_ITEM || kind == RESP_ASYNC_ITEM {
            PayloadKind::Query
        } else if kind == RESP_PROVIDER_STATE {
            PayloadKind::State
        } else {
            PayloadKind::Unread
        }),
{
    if kind == RESP_ITEM || kind == RESP_ASYNC_ITEM {
        PayloadKind::Query
    } else if kind == RESP_PROVIDER_STATE {
        PayloadKind::State
    } else {
        PayloadKind::Unread
    }
}

/// A response payload, as decoded.
pub enum Payload {
    Query { query: String, item: Option<Item>, qid: i32 },
    State { provider: String, actions: Vec<String> },
    /// The payload did not decode.
    Malformed,
    /// The payload was not read.
    Unread,
}

/// The event for a response of type `kind` whose payload decoded to `payload`
/// (`None`: the response is skipped).
pub fn response_event(kind: u8, payload: Payload) -> (r: Option<Event>)
    ensures
        match r {
            Some(Event::Item { qid, query, item }) => kind == RESP_ITEM && (payload matches Payload::Query {
                query: q,
                item: Some(it),
                qid: id,
            } && q@ == query@ && it@ == item@ && id == qid),
            Some(Event::Update { item }) => kind == RESP_ASYNC_ITEM && (payload matches Payload::Query {
                item: Some(it),
                ..
            } && it@ == item@),
            Some(Event::State { provider, actions }) => kind == RESP_PROVIDER_STATE && (
            payload matches Payload::State { provider: p, actions: a } && p@ == provider@ && views(
                a@,
            ) == views(actions@)),
            Some(Event::NoResults) => kind == RESP_NO_RESULTS,
            Some(Event::Done) => kind == RESP_QUERY_DONE,
            Some(_) => false,
            None => {
                ||| (kind == RESP_ITEM || kind == RESP_ASYNC_ITEM) && !(payload matches Payload::Query {
                    item: Some(_),
                    ..
                })
                ||| kind == RESP_PROVIDER_STATE && !(payload is State)
                ||| kind != RESP_ITEM && kind != RESP_ASYNC_ITEM && kind != RESP_PROVIDER_STATE
                    && kind != RESP_NO_RESULTS && kind != RESP_QUERY_DONE
            },
        },
{
    if kind == RESP_ITEM || kind == RESP_ASYNC_ITEM {
        match payload {
            Payload::Query { query, item: Some(item), qid } => {
                if kind == RESP_ITEM {
                    Some(Event::Item { qid, query, item })
                } else {
                    Some(Event::Update { item })
                }
            },
            _ => None,
        }
    } else if kind == RESP_PROVIDER_STATE {
        match payload {
            Payload::State { provider, actions } => Some(Event::State { provider, actions }),
            _ => None,
        }
    } else if kind == RESP_NO_RESULTS {
        Some(Event::NoResults)
    } else if kind == RESP_QUERY_DONE {
        Some(Event::Done)
    } else {
        None
    }
}

/// The event for a frame of type `kind` on a subscription connection whose payload's
/// `value` decoded to `value` (`None`: it did not decode).
pub fn subscription_event(kind: u8, value: Option<String>) -> (r: Option<Event>)
    ensures
        match r {
            Some(Event::Subscription(v)) => kind == RESP_SUBSCRIPTION_CHANGED && (value matches Some(
                w,
            ) && w@ == v@),
            Some(_) => false,
            None => kind != RESP_SUBSCRIPTION_CHANGED || value is None,
        },
{
    if kind != RESP_SUBSCRIPTION_CHANGED {
        return None;
    }
    match value {
        Some(v) => Some(Event::Subscription(v)),
        None => None,
    }
}

/// Whether a response of type `kind` ends an activation.
pub fn activation_finished(kind: u8) -> (r: bool)
    ensures
        r == (kind == RESP_ACTIVATION_FINISHED),
{
    kind == RESP_ACTIVATION_FINISHED
}

} // verus!
