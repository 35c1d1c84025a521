//! Server-sent events, the fallback of sync where sockets are blocked: which requests are let in,
//! which events a message becomes, and what a reconnecting client says.

use vstd::bytes::{
    lemma_auto_spec_u64_to_from_le_bytes, spec_u64_from_le_bytes, spec_u64_to_le_bytes,
    u64_from_le_bytes, u64_to_le_bytes,
};
use vstd::prelude::*;
use vstd::string::*;
use crate::base64_text::{
    base64_char, base64_of, bytes_of_base64, decode_base64, decodes_to, encode_base64,
};
use crate::json::{tree_wf, Json};
use crate::json_text::{print_json, text_of_json};
use crate::text::{
    concat, decimal, decimal_text, is_listed, lemma_decimal_digits, lemma_pieces_extend,
    lemma_pieces_nonempty, lemma_pieces_single, listed, pieces, same_text, split, texts,
};

verus! {

/// How often a comment is sent to keep a connection open, in seconds.
pub const KEEP_ALIVE_SECS: u64 = 15;

/// The comment that keeps a connection open.
pub const KEEP_ALIVE_TEXT: &'static str = "keep-alive";

/// How many events wait for a client.
pub const EVENT_BUFFER: usize = 16;

/// The timestamp that an event id holds, if it holds one: the part before the first `:` is base64
/// of eight bytes.
pub open spec fn event_timestamp(id: Seq<char>) -> Option<u64> {
    match bytes_of_base64(pieces(id, ':')[0]) {
        Ok(b) if b.len() == 8 => Some(spec_u64_from_le_bytes(b)),
        _ => None,
    }
}

/// What a reconnecting client says of where it was: a timestamp up to which it has seen everything.
/// There is no cursor yet to resume from, so that its queries start afresh.
#[derive(Debug, Clone, Copy, PartialEq, Eq, Structural)]
pub struct ResumePoint {
    pub timestamp_hint: Option<u64>,
    pub has_cursor: bool,
}

/// Read the id of the last event that a reconnecting client saw.
pub fn parse_last_event_id(id: &str) -> (r: ResumePoint)
    ensures
        r.timestamp_hint == event_timestamp(id@),
        !r.has_cursor,
{
    let parts = split(id, ':');
    proof {
        lemma_pieces_nonempty(id@, ':');
        assert(texts(parts@)[0] == parts@[0]@);
    }
    let timestamp_hint = match decode_base64(parts[0].as_str()) {
        Ok(b) => if b.len() == 8 {
            Some(u64_from_le_bytes(b.as_slice()))
        } else {
            None
        },
        Err(_) => None,
    };
    ResumePoint { timestamp_hint, has_cursor: false }
}

/// A message of the server, as far as it matters here.
#[derive(Debug)]
pub enum MessageKind {
    /// Part of a transition that was split.
    TransitionChunk { transition_id: String, part_number: u32 },
    /// A transition, with the timestamp of the server where it has one.
    Transition { server_ts: Option<u64> },
    Ping,
    AuthError,
    FatalError,
    Other,
}

/// An event.
#[derive(Debug)]
pub struct SseEvent {
    pub name: String,
    pub id: Option<String>,
    pub data: String,
}

/// The content of an event.
pub struct EventTree {
    pub name: Seq<char>,
    pub id: Option<Seq<char>>,
    pub data: Seq<char>,
}

impl View for SseEvent {
    type V = EventTree;

    open spec fn view(&self) -> EventTree {
        EventTree {
            name: self.name@,
            id: match self.id {
                Some(s) => Some(s@),
                None => None,
            },
            data: self.data@,
        }
    }
}

/// The name of the event for a message.
pub open spec fn event_name(k: MessageKind) -> Seq<char> {
    match k {
        MessageKind::TransitionChunk { .. } => "chunk"@,
        MessageKind::Transition { .. } => "transition"@,
        MessageKind::Ping => "ping"@,
        MessageKind::AuthError => "error"@,
        MessageKind::FatalError => "error"@,
        MessageKind::Other => "message"@,
    }
}

/// The id of the event for a message, if it has one.
pub open spec fn event_id(k: MessageKind) -> Option<Seq<char>> {
    match k {
        MessageKind::TransitionChunk { transition_id, part_number } => Some(
            transition_id@ + ":"@ + decimal(part_number as nat),
        ),
        MessageKind::Transition { server_ts } => Some(
            match server_ts {
                Some(ts) => base64_of(spec_u64_to_le_bytes(ts)),
                None => "0"@,
            },
        ),
        _ => None,
    }
}

/// The id of the event for a transition. A client that sends it back is understood.
pub fn transition_event_id(server_ts: u64) -> (r: String)
    ensures
        r@ == base64_of(spec_u64_to_le_bytes(server_ts)),
        event_timestamp(r@) == Some(server_ts),
{
    let bytes = u64_to_le_bytes(server_ts);
    let r = encode_base64(bytes.as_slice());
    proof {
        lemma_auto_spec_u64_to_from_le_bytes();
        assert(!r@.contains(':')) by {
            if r@.contains(':') {
                let i = choose|i: int| 0 <= i < r@.len() && r@[i] == ':';
                assert(base64_char(r@[i]));
            }
        }
        lemma_pieces_single(r@, ':');
    }
    r
}

/// The event for a message.
pub fn message_to_event(kind: &MessageKind, message: &Json) -> (r: SseEvent)
    requires
        tree_wf(message.tree()),
    ensures
        r@ == (EventTree {
            name: event_name(*kind),
            id: event_id(*kind),
            data: text_of_json(message.tree()),
        }),
{
    let data = print_json(message);
    match kind {
        MessageKind::TransitionChunk { transition_id, part_number } => {
            let a = concat(transition_id.as_str(), ":");
            let id = concat(a.as_str(), decimal_text(*part_number as u64).as_str());
            SseEvent { name: "chunk".to_owned(), id: Some(id), data }
        },
        MessageKind::Transition { server_ts } => {
            let id = match server_ts {
                Some(ts) => transition_event_id(*ts),
                None => "0".to_owned(),
            };
            SseEvent { name: "transition".to_owned(), id: Some(id), data }
        },
        MessageKind::Ping => SseEvent { name: "ping".to_owned(), id: None, data },
        MessageKind::AuthError | MessageKind::FatalError => SseEvent {
            name: "error".to_owned(),
            id: None,
            data,
        },
        MessageKind::Other => SseEvent { name: "message".to_owned(), id: None, data },
    }
}

/// Whether a message is given a timestamp before it becomes events.
pub fn needs_server_ts(kind: &MessageKind) -> (r: bool)
    ensures
        r == (kind is Transition),
{
    matches!(kind, MessageKind::Transition { .. })
}

/// The events for the messages that one message was split into.
pub fn server_message_to_events(messages: &Vec<(MessageKind, Json)>) -> (r: Vec<SseEvent>)
    requires
        forall|i: int| 0 <= i < messages@.len() ==> tree_wf((#[trigger] messages@[i]).1.tree()),
    ensures
        r@.len() == messages@.len(),
        forall|i: int|
            0 <= i < messages@.len() ==> (#[trigger] r@[i])@ == (EventTree {
                name: event_name(messages@[i].0),
                id: event_id(messages@[i].0),
                data: text_of_json(messages@[i].1.tree()),
            }),
{
    let mut out: Vec<SseEvent> = Vec::new();
    let mut i: usize = 0;
    while i < messages.len()
        invariant
            i <= messages.len(),
            out@.len() == i,
            forall|j: int|
                0 <= j < messages@.len() ==> tree_wf((#[trigger] messages@[j]).1.tree()),
            forall|j: int|
                0 <= j < i ==> (#[trigger] out@[j])@ == (EventTree {
                    name: event_name(messages@[j].0),
                    id: event_id(messages@[j].0),
                    data: text_of_json(messages@[j].1.tree()),
                }),
        decreases messages.len() - i,
    {
        out.push(message_to_event(&messages[i].0, &messages[i].1));
        i += 1;
    }
    out
}

/// The origin that a request names.
#[derive(Debug)]
pub enum Origin {
    /// None.
    Missing,
    /// One that is no text.
    Invalid,
    Text(String),
}

/// How a request is turned down.
#[derive(Debug, Clone, Copy, PartialEq, Eq, Structural)]
pub enum RefusalKind {
    NotFound,
    BadRequest,
    Forbidden,
}

/// Why a request is turned down, as content.
pub struct RefusalTree {
    pub kind: RefusalKind,
    pub code: Seq<char>,
    pub message: Seq<char>,
}

/// Why a request is turned down.
#[derive(Debug)]
pub struct Refusal {
    pub kind: RefusalKind,
    pub code: String,
    pub message: String,
}

impl View for Refusal {
    type V = RefusalTree;

    open spec fn view(&self) -> RefusalTree {
        RefusalTree { kind: self.kind, code: self.code@, message: self.message@ }
    }
}

/// Whether an origin is allowed.
pub open spec fn origin_allowed(allowed: Seq<String>, origin: Seq<char>) -> bool {
    exists|i: int| 0 <= i < allowed.len() && (#[trigger] allowed[i])@ == origin
}

/// Why a request is turned down, if it is: the fallback is switched off, or the origin is no text,
/// or the origin is not allowed.
pub open spec fn refusal_of(enabled: bool, origin: Origin, allowed: Seq<String>) -> Option<
    RefusalTree,
> {
    if !enabled {
        Some(
            RefusalTree {
                kind: RefusalKind::NotFound,
                code: "SseDisabled"@,
                message: "SSE sync is disabled via SSE_SYNC_ENABLED"@,
            },
        )
    } else {
        match origin {
            Origin::Missing => None,
            Origin::Invalid => Some(
                RefusalTree {
                    kind: RefusalKind::BadRequest,
                    code: "InvalidOrigin"@,
                    message: "Invalid Origin header"@,
                },
            ),
            Origin::Text(o) => if origin_allowed(allowed, o@) {
                None
            } else {
                Some(
                    RefusalTree {
                        kind: RefusalKind::Forbidden,
                        code: "OriginNotAllowed"@,
                        message: "SSE connection rejected: origin "@ + o@
                            + " is not in the allowed origins list."@,
                    },
                )
            },
        }
    }
}

fn is_origin_allowed(allowed: &Vec<String>, origin: &str) -> (r: bool)
    ensures
        r == origin_allowed(allowed@, origin@),
{
    let mut i: usize = 0;
    while i < allowed.len()
        invariant
            i <= allowed.len(),
            forall|j: int| 0 <= j < i ==> (#[trigger] allowed@[j])@ != origin@,
        decreases allowed.len() - i,
    {
        if same_text(allowed[i].as_str(), origin) {
            assert(allowed@[i as int]@ == origin@);
            return true;
        }
        i += 1;
    }
    false
}

/// Decide whether a request is let in.
pub fn check_request(enabled: bool, origin: &Origin, allowed: &Vec<String>) -> (r: Result<
    (),
    Refusal,
>)
    ensures
        match r {
            Ok(()) => refusal_of(enabled, *origin, allowed@) is None,
            Err(e) => refusal_of(enabled, *origin, allowed@) == Some(e@),
        },
{
    if !enabled {
        return Err(
            Refusal {
                kind: RefusalKind::NotFound,
                code: "SseDisabled".to_owned(),
                message: "SSE sync is disabled via SSE_SYNC_ENABLED".to_owned(),
            },
        );
    }
    match origin {
        Origin::Missing => Ok(()),
        Origin::Invalid => Err(
            Refusal {
                kind: RefusalKind::BadRequest,
                code: "InvalidOrigin".to_owned(),
                message: "Invalid Origin header".to_owned(),
            },
        ),
        Origin::Text(o) => if is_origin_allowed(allowed, o.as_str()) {
            Ok(())
        } else {
            let a = concat("SSE connection rejected: origin ", o.as_str());
            Err(
                Refusal {
                    kind: RefusalKind::Forbidden,
                    code: "OriginNotAllowed".to_owned(),
                    message: concat(a.as_str(), " is not in the allowed origins list."),
                },
            )
        },
    }
}

/// A browser from an origin that is not allowed is never let in, whatever else holds.
pub proof fn foreign_origins_are_refused(enabled: bool, origin: Origin, allowed: Seq<String>)
    requires
        origin is Text,
        !origin_allowed(allowed, origin->Text_0@),
    ensures
        refusal_of(enabled, origin, allowed) is Some,
{
}

/// What a client speaks through.
#[derive(Debug, Clone, Copy, PartialEq, Eq, Structural)]
pub enum ClientType {
    Npm,
    Other,
}

/// Whether a client understands transitions that are split.
pub fn supports_chunks(client: ClientType, config_supports_chunks: bool) -> (r: bool)
    ensures
        r == (client == ClientType::Npm || config_supports_chunks),
{
    match client {
        ClientType::Npm => true,
        ClientType::Other => config_supports_chunks,
    }
}

/// What `url::form_urlencoded::parse` reads from the query of a URL: its parameters, by name.
pub uninterp spec fn query_parameters(query: Seq<char>) -> Seq<(Seq<char>, Seq<char>)>;

/// Parameters, as content.
pub open spec fn parameter_texts(query: Seq<(String, String)>) -> Seq<(Seq<char>, Seq<char>)> {
    query.map_values(|p: (String, String)| (p.0@, p.1@))
}

/// `url::form_urlencoded::parse`: the parameters of a query, in their order.
#[verifier::external_body]
fn split_query(query: &str) -> (r: Vec<(String, String)>)
    ensures
        parameter_texts(r@) == query_parameters(query@),
{
    url::form_urlencoded::parse(query.as_bytes()).into_owned().collect()
}

/// The parameters of a request; none where it has no query.
pub fn request_parameters(query: Option<&str>) -> (r: Vec<(String, String)>)
    ensures
        parameter_texts(r@) == (match query {
            Some(q) => query_parameters(q@),
            None => Seq::empty(),
        }),
{
    match query {
        Some(q) => split_query(q),
        None => {
            let none: Vec<(String, String)> = Vec::new();
            assert(parameter_texts(none@) =~= Seq::empty());
            none
        },
    }
}

/// The query parameters that may hold a token, for clients that cannot set headers.
pub open spec fn token_parameters() -> Seq<&'static str> {
    seq!["token", "authToken", "accessToken"]
}

/// The position of the first parameter with one of some names, if there is one.
pub open spec fn is_first_parameter(
    query: Seq<(String, String)>,
    names: Seq<&'static str>,
    i: int,
) -> bool {
    &&& 0 <= i < query.len()
    &&& listed(names, query[i].0@)
    &&& forall|j: int| 0 <= j < i ==> !listed(names, (#[trigger] query[j]).0@)
}

/// Whether none of the parameters has one of some names.
pub open spec fn no_parameter(query: Seq<(String, String)>, names: Seq<&'static str>) -> bool {
    forall|j: int| 0 <= j < query.len() ==> !listed(names, (#[trigger] query[j]).0@)
}

fn find_parameter(query: &Vec<(String, String)>, names: &[&'static str]) -> (r: Option<String>)
    ensures
        match r {
            Some(v) => exists|i: int|
                #[trigger] is_first_parameter(query@, names@, i) && v@ == query@[i].1@,
            None => no_parameter(query@, names@),
        },
{
    let mut i: usize = 0;
    while i < query.len()
        invariant
            i <= query.len(),
            forall|j: int| 0 <= j < i ==> !listed(names@, (#[trigger] query@[j]).0@),
        decreases query.len() - i,
    {
        if is_listed(names, query[i].0.as_str()) {
            let found = query[i].1.clone();
            assert(is_first_parameter(query@, names@, i as int));
            return Some(found);
        }
        i += 1;
    }
    None
}

/// What a header says, or else the first query parameter with one of some names.
pub open spec fn header_or_parameter(
    header: Option<String>,
    query: Seq<(String, String)>,
    names: Seq<&'static str>,
    found: Option<String>,
) -> bool {
    match header {
        Some(h) => found matches Some(v) && v@ == h@,
        None => match found {
            Some(v) => exists|i: int|
                #[trigger] is_first_parameter(query, names, i) && v@ == query[i].1@,
            None => no_parameter(query, names),
        },
    }
}

/// The id of the last event that a reconnecting client saw: as its header says, or else its
/// `lastEventId` parameter.
pub fn last_event_id(header: Option<String>, query: &Vec<(String, String)>) -> (r: Option<String>)
    ensures
        header_or_parameter(header, query@, seq!["lastEventId"], r),
{
    let names: [&'static str; 1] = ["lastEventId"];
    assert(names@ =~= seq!["lastEventId"]);
    match header {
        Some(h) => Some(h),
        None => find_parameter(query, &names),
    }
}

/// The token of a client: as its header says, or else its `token`, `authToken` or `accessToken`
/// parameter, whichever comes first.
pub fn request_token(header: Option<String>, query: &Vec<(String, String)>) -> (r: Option<String>)
    ensures
        header_or_parameter(header, query@, token_parameters(), r),
{
    let names: [&'static str; 3] = ["token", "authToken", "accessToken"];
    assert(names@ =~= token_parameters());
    match header {
        Some(h) => Some(h),
        None => find_parameter(query, &names),
    }
}

/// The message by which a connection is opened for a client.
#[derive(Debug)]
pub struct ConnectMessage {
    pub connection_count: u32,
    pub last_close_reason: String,
    pub max_observed_timestamp: Option<u64>,
    pub client_ts: Option<i64>,
}

/// The message by which a connection is opened: it is the first one, its reason is the id of the
/// last event, where there is one, and the client has seen everything up to the timestamp that the
/// id holds.
pub fn connect_message(last_event_id: Option<String>) -> (r: ConnectMessage)
    ensures
        r.connection_count == 1,
        r.last_close_reason@ == (match last_event_id {
            Some(id) => id@,
            None => Seq::empty(),
        }),
        r.max_observed_timestamp == (match last_event_id {
            Some(id) => event_timestamp(id@),
            None => None,
        }),
        r.client_ts is None,
{
    let max_observed_timestamp = match &last_event_id {
        Some(id) => parse_last_event_id(id.as_str()).timestamp_hint,
        None => None,
    };
    let last_close_reason = match last_event_id {
        Some(id) => id,
        None => {
            let none = String::new();
            assert(none@ =~= Seq::empty());
            none
        },
    };
    ConnectMessage {
        connection_count: 1,
        last_close_reason,
        max_observed_timestamp,
        client_ts: None,
    }
}

/// A request is let in exactly where the endpoint is switched on and the request comes without an
/// origin or with one that is listed. Otherwise what is wrong decides how it is turned down: an
/// endpoint that is switched off is not found, whatever the origin is; an origin that is no text is
/// a bad request; and one that is not listed is forbidden.
pub proof fn requests_are_let_in_for_cause(enabled: bool, origin: Origin, allowed: Seq<String>)
    ensures
        refusal_of(enabled, origin, allowed) is None <==> enabled && (origin is Missing || (
        origin matches Origin::Text(o) && exists|i: int|
            0 <= i < allowed.len() && (#[trigger] allowed[i])@ == o@)),
        !enabled ==> (refusal_of(enabled, origin, allowed) matches Some(r) && r.kind
            == RefusalKind::NotFound && r.code == "SseDisabled"@),
        enabled && origin is Invalid ==> (refusal_of(enabled, origin, allowed) matches Some(r)
            && r.kind == RefusalKind::BadRequest && r.code == "InvalidOrigin"@),
        enabled && origin is Text ==> (refusal_of(enabled, origin, allowed) matches Some(r)
            ==> r.kind == RefusalKind::Forbidden && r.code == "OriginNotAllowed"@ && r.message
            == "SSE connection rejected: origin "@ + origin->Text_0@
            + " is not in the allowed origins list."@),
{
}

/// The name of an event tells what the message is: two messages have one name exactly where they
/// are of one kind, or both are errors.
pub proof fn event_names_tell_kinds_apart(a: MessageKind, b: MessageKind)
    ensures
        event_name(a) == event_name(b) <==> (a is TransitionChunk && b is TransitionChunk) || (
        a is Transition && b is Transition) || (a is Ping && b is Ping) || ((a is AuthError
            || a is FatalError) && (b is AuthError || b is FatalError)) || (a is Other
            && b is Other),
        a is AuthError || a is FatalError ==> event_name(a) == "error"@,
        a is Transition ==> event_name(a) == "transition"@,
        a is TransitionChunk ==> event_name(a) == "chunk"@,
{
    lemma_event_names();
}

proof fn lemma_event_names()
    ensures
        "chunk"@ != "transition"@ && "chunk"@ != "ping"@ && "chunk"@ != "error"@ && "chunk"@
            != "message"@,
        "transition"@ != "ping"@ && "transition"@ != "error"@ && "transition"@ != "message"@,
        "ping"@ != "error"@ && "ping"@ != "message"@ && "error"@ != "message"@,
{
    reveal_strlit("chunk");
    reveal_strlit("transition");
    reveal_strlit("ping");
    reveal_strlit("error");
    reveal_strlit("message");
    assert("chunk"@.len() == 5 && "chunk"@[0] == 'c');
    assert("transition"@.len() == 10);
    assert("ping"@.len() == 4);
    assert("error"@.len() == 5 && "error"@[0] == 'e');
    assert("message"@.len() == 7);
}

/// An event has an id exactly where it is a transition or part of one. The id of a part names the
/// transition and counts the part, so that no two parts of a transition share one.
pub proof fn resumable_events_have_ids(k: MessageKind, id: String, part: u32, other: u32)
    ensures
        event_id(k) is Some <==> k is Transition || k is TransitionChunk,
        event_id(MessageKind::TransitionChunk { transition_id: id, part_number: part }) == Some(
            id@ + seq![':'] + decimal(part as nat),
        ),
        part != other ==> event_id(
            MessageKind::TransitionChunk { transition_id: id, part_number: part },
        ) != event_id(MessageKind::TransitionChunk { transition_id: id, part_number: other }),
        event_id(MessageKind::Transition { server_ts: None }) == Some("0"@),
{
    reveal_strlit(":");
    assert(":"@ =~= seq![':']);
    lemma_decimal_digits(part as nat);
    lemma_decimal_digits(other as nat);
    let head = id@ + seq![':'];
    assert((head + decimal(part as nat)).skip(head.len() as int) =~= decimal(part as nat));
    assert((head + decimal(other as nat)).skip(head.len() as int) =~= decimal(other as nat));
}

/// The timestamp of an id is in what stands before its first colon: eight bytes in base64, the
/// lowest first. What follows the colon makes no difference.
pub proof fn timestamps_stand_before_the_colon(head: Seq<char>, tail: Seq<char>, ts: u64)
    requires
        !head.contains(':'),
        !tail.contains(':'),
    ensures
        event_timestamp(head.push(':') + tail) == event_timestamp(head),
        decodes_to(bytes_of_base64(head), spec_u64_to_le_bytes(ts)) ==> event_timestamp(head)
            == Some(ts),
        bytes_of_base64(head) is Err ==> event_timestamp(head) is None,
        bytes_of_base64(head) matches Ok(b) ==> b.len() != 8 ==> event_timestamp(head) is None,
{
    lemma_pieces_single(head, ':');
    lemma_pieces_extend(head, ':', tail);
    lemma_auto_spec_u64_to_from_le_bytes();
}

/// What stands in the header counts before what stands in the query, and in the query the first
/// parameter with one of the names counts. Nothing is found exactly where there is neither.
pub proof fn headers_come_before_parameters(
    header: Option<String>,
    query: Seq<(String, String)>,
    names: Seq<&'static str>,
    found: Option<String>,
    i: int,
)
    requires
        header_or_parameter(header, query, names, found),
    ensures
        header matches Some(h) ==> (found matches Some(v) && v@ == h@),
        header is None && 0 <= i < query.len() && listed(names, query[i].0@) && (forall|j: int|
            0 <= j < i ==> !listed(names, (#[trigger] query[j]).0@)) ==> (found matches Some(v)
            && v@ == query[i].1@),
        found is None <==> header is None && (forall|j: int|
            0 <= j < query.len() ==> !listed(names, (#[trigger] query[j]).0@)),
{
    if header is None && found is Some {
        let at = choose|at: int|
            #[trigger] is_first_parameter(query, names, at) && found->0@ == query[at].1@;
        assert(is_first_parameter(query, names, at));
        assert(listed(names, query[at].0@));
        if 0 <= i < query.len() && listed(names, query[i].0@) && (forall|j: int|
            0 <= j < i ==> !listed(names, (#[trigger] query[j]).0@)) {
            assert(at == i);
        }
    }
}

/// A token may stand in the query under three names.
pub proof fn tokens_have_three_names(name: Seq<char>)
    ensures
        listed(token_parameters(), name) <==> name == "token"@ || name == "authToken"@ || name
            == "accessToken"@,
{
    assert(token_parameters()[0]@ == "token"@);
    assert(token_parameters()[1]@ == "authToken"@);
    assert(token_parameters()[2]@ == "accessToken"@);
}

/// A request is let in exactly where the endpoint is switched on and its origin is missing or
/// listed.
pub proof fn listed_origins_are_let_in(
    enabled: bool,
    origin: Origin,
    allowed: Vec<String>,
    checked: Result<(), Refusal>,
)
    requires
        call_ensures(check_request, (enabled, &origin, &allowed), checked),
    ensures
        checked is Ok <==> enabled && (origin is Missing || (origin matches Origin::Text(o)
            && exists|i: int| 0 <= i < allowed@.len() && (#[trigger] allowed@[i])@ == o@)),
        checked matches Err(e) ==> (e.kind == RefusalKind::NotFound <==> !enabled),
        checked matches Err(e) ==> (e.kind == RefusalKind::BadRequest <==> enabled && origin
            is Invalid),
{
    requests_are_let_in_for_cause(enabled, origin, allowed@);
}

/// A client is sent chunks where it is one that understands them or is configured for them.
pub proof fn chunks_are_sent_to_those_who_read_them(client: ClientType, config: bool, chunks: bool)
    requires
        call_ensures(supports_chunks, (client, config), chunks),
    ensures
        config ==> chunks,
        client == ClientType::Npm ==> chunks,
        !config && client == ClientType::Other ==> !chunks,
{
}

/// A transition is given the timestamp of the server, and nothing else is.
pub proof fn transitions_are_stamped(kind: MessageKind, needs: bool)
    requires
        call_ensures(needs_server_ts, (&kind,), needs),
    ensures
        needs <==> kind is Transition,
{
}

/// A client that comes back with the id of a transition says the timestamp of that transition when
/// it connects, and gives the id as the reason; one that comes without an id says neither.
pub proof fn returning_clients_say_where_they_were(
    server_ts: u64,
    id: String,
    back: ConnectMessage,
    first: ConnectMessage,
)
    requires
        call_ensures(transition_event_id, (server_ts,), id),
        call_ensures(connect_message, (Some(id),), back),
        call_ensures(connect_message, (None::<String>,), first),
    ensures
        back.max_observed_timestamp == Some(server_ts),
        back.last_close_reason@ == id@,
        first.max_observed_timestamp is None,
        first.last_close_reason@.len() == 0,
        back.connection_count == 1 && first.connection_count == 1,
        back.client_ts is None && first.client_ts is None,
{
}

/// What a last event id hints at is the timestamp in it, and it never gives a cursor.
pub proof fn ids_hint_at_timestamps(server_ts: u64, id: String, text: &str, resume: ResumePoint)
    requires
        call_ensures(transition_event_id, (server_ts,), id),
        text@ == id@,
        call_ensures(parse_last_event_id, (text,), resume),
    ensures
        resume.timestamp_hint == Some(server_ts),
        !resume.has_cursor,
{
}

/// A message becomes an event that carries the message as JSON, under the name and the id of its
/// kind.
pub proof fn events_carry_their_message(kind: MessageKind, message: Json, event: SseEvent)
    requires
        call_ensures(message_to_event, (&kind, &message), event),
    ensures
        event.data@ == text_of_json(message.tree()),
        event.id is Some <==> kind is Transition || kind is TransitionChunk,
        event.name@ == "error"@ <==> kind is AuthError || kind is FatalError,
        event.name@ == "transition"@ <==> kind is Transition,
        event.name@ == "chunk"@ <==> kind is TransitionChunk,
        event.name@ == "ping"@ <==> kind is Ping,
{
    lemma_event_names();
}

/// A token in the header counts before one in the query, and so does the id of the last event.
pub proof fn header_tokens_count_first(
    header: String,
    query: Vec<(String, String)>,
    token: Option<String>,
    id: Option<String>,
)
    requires
        call_ensures(request_token, (Some(header), &query), token),
        call_ensures(last_event_id, (Some(header), &query), id),
    ensures
        token matches Some(v) && v@ == header@,
        id matches Some(v) && v@ == header@,
{
}

/// Without a header, a token is found exactly where the query has a parameter of one of the three
/// names, and the id of the last event where it has one of its own.
pub proof fn parameters_stand_in_for_headers(
    query: Vec<(String, String)>,
    token: Option<String>,
    id: Option<String>,
)
    requires
        call_ensures(request_token, (None::<String>, &query), token),
        call_ensures(last_event_id, (None::<String>, &query), id),
    ensures
        token is Some <==> exists|i: int|
            0 <= i < query@.len() && ((#[trigger] query@[i]).0@ == "token"@ || query@[i].0@
                == "authToken"@ || query@[i].0@ == "accessToken"@),
        id is Some <==> exists|i: int|
            0 <= i < query@.len() && (#[trigger] query@[i]).0@ == "lastEventId"@,
{
    assert forall|name: Seq<char>| #[trigger] listed(token_parameters(), name) <==> name == "token"@
        || name == "authToken"@ || name == "accessToken"@ by {
        tokens_have_three_names(name);
    }
    let names = seq!["lastEventId"];
    assert forall|name: Seq<char>| #[trigger] listed(names, name) <==> name == "lastEventId"@ by {
        assert(names[0]@ == "lastEventId"@);
    }
    headers_come_before_parameters(None, query@, token_parameters(), token, 0);
    headers_come_before_parameters(None, query@, names, id, 0);
}

/// Messages become events one by one and in order, each with the name and the id of its kind and
/// the message as JSON.
pub proof fn messages_become_events(
    messages: Vec<(MessageKind, Json)>,
    events: Vec<SseEvent>,
    i: int,
    event: SseEvent,
)
    requires
        call_ensures(server_message_to_events, (&messages,), events),
        0 <= i < messages@.len(),
        call_ensures(message_to_event, (&messages@[i].0, &messages@[i].1), event),
    ensures
        events@.len() == messages@.len(),
        events@[i]@ == event@,
{
}

} // verus!
