//! What happens to a CONNECT request once it is accepted: the route to the
//! target, the replies, the recovery of a host name behind an IP literal.

use regex::RegexSet;
use vstd::prelude::*;

use crate::http::connect::{ConnectRequest, ConnectRequestView};
use crate::http::response::Response;
use crate::logger::log_config::LogKind;
use crate::text::{
    chars_of, decimal, join, number_text, rsplit_once, split_first, split_last, split_once,
};

verus! {

/// A set of regular expressions of the `regex` crate.
#[verifier::external_type_specification]
#[verifier::external_body]
pub struct ExRegexSet(RegexSet);

/// The texts that some expression of a set matches.
pub uninterp spec fn matched_texts(set: RegexSet) -> Set<Seq<char>>;

/// Calls `RegexSet::is_match`: whether one of the expressions matches
/// somewhere in the text.
#[verifier::external_body]
fn regex_set_matches(set: &RegexSet, text: &str) -> (r: bool)
    ensures
        r == matched_texts(*set).contains(text@),
{
    set.is_match(text)
}

/// The number that one to three decimal digits write.
pub open spec fn digits_value(s: Seq<char>) -> int
    decreases s.len(),
{
    if s.len() == 0 {
        0
    } else {
        digits_value(s.drop_last()) * 10 + (s.last() as u32 - '0' as u32)
    }
}

/// A number from 0 to 255 in decimal digits, without leading zeros.
pub open spec fn is_octet(s: Seq<char>) -> bool {
    &&& 1 <= s.len() <= 3
    &&& forall|i: int| 0 <= i < s.len() ==> '0' <= #[trigger] s[i] <= '9'
    &&& s.len() > 1 ==> s[0] != '0'
    &&& digits_value(s) <= 255
}

/// `n` octets with a dot between any two.
pub open spec fn is_dotted_octets(s: Seq<char>, n: nat) -> bool
    decreases n,
{
    if n <= 1 {
        n == 1 && is_octet(s)
    } else {
        match split_first(s, '.') {
            Some((head, rest)) => is_octet(head) && is_dotted_octets(rest, (n - 1) as nat),
            None => false,
        }
    }
}

/// An IPv4 address in dotted decimal notation.
pub open spec fn is_ipv4_literal(s: Seq<char>) -> bool {
    is_dotted_octets(s, 4)
}

/// Whether a text is an octet.
fn octet(s: &str) -> (r: bool)
    ensures
        r == is_octet(s@),
{
    let v = chars_of(s);
    if v.len() < 1 || v.len() > 3 {
        return false;
    }
    let mut value: u32 = 0;
    let mut i: usize = 0;
    while i < v.len()
        invariant
            i <= v@.len() <= 3,
            v@ == s@,
            value == digits_value(s@.take(i as int)),
            i == 0 ==> value == 0,
            i == 1 ==> value <= 9,
            i == 2 ==> value <= 99,
            i == 3 ==> value <= 999,
            forall|j: int| 0 <= j < i ==> '0' <= #[trigger] s@[j] <= '9',
        decreases v@.len() - i,
    {
        let c = v[i];
        if c < '0' || c > '9' {
            assert(!('0' <= s@[i as int] <= '9'));
            return false;
        }
        assert(s@.take(i + 1).drop_last() =~= s@.take(i as int));
        value = value * 10 + (c as u32 - 0x30);
        i += 1;
    }
    assert(s@.take(s@.len() as int) =~= s@);
    if v.len() > 1 && v[0] == '0' {
        return false;
    }
    value <= 255
}

/// Whether a text is `n` dotted octets.
fn dotted_octets(s: &str, n: u8) -> (r: bool)
    ensures
        r == is_dotted_octets(s@, n as nat),
    decreases n,
{
    if n <= 1 {
        return n == 1 && octet(s);
    }
    match split_once(s, '.') {
        Some((head, rest)) => octet(head) && dotted_octets(rest, n - 1),
        None => false,
    }
}

/// The port of a target `IPv4:port`; `None` for any other target.
pub open spec fn ipv4_port(target: Seq<char>) -> Option<Seq<char>> {
    match split_last(target, ':') {
        Some((host, port)) => if is_ipv4_literal(host) {
            Some(port)
        } else {
            None
        },
        None => None,
    }
}

/// The port of a target `IPv4:port`. Only such targets have a name to recover:
/// a domain carries its own.
pub fn ipv4_literal_port(target: &str) -> (r: Option<&str>)
    ensures
        match r {
            Some(port) => ipv4_port(target@) == Some(port@),
            None => ipv4_port(target@) is None,
        },
{
    match rsplit_once(target, ':') {
        Some((host, port)) => {
            if dotted_octets(host, 4) {
                Some(port)
            } else {
                None
            }
        },
        None => None,
    }
}

/// The host name that a payload tells: that of a TLS ClientHello goes before
/// that of an HTTP request.
pub fn recovered_host(sni: Option<String>, http_host: Option<String>) -> (r: Option<String>)
    ensures
        r == (if sni is Some {
            sni
        } else {
            http_host
        }),
{
    match sni {
        Some(host) => Some(host),
        None => http_host,
    }
}

/// Where a session stands.
#[derive(Clone, Copy, Debug, PartialEq, Eq, Structural)]
pub enum SessionState {
    /// Nothing was replied; a slot for a direct connection is wanted.
    WantsDirectSlot,
    /// Nothing was replied; the upstream is being dialed.
    Dialing,
    /// `200` was replied early; the first payload is awaited.
    Peeking,
    /// `200` was replied early; the upstream is being dialed for the payload.
    Redialing,
    /// The tunnel is open.
    Tunneling,
    /// The session is over.
    Closed,
}

/// What can happen to a session.
#[derive(Debug)]
pub enum SessionEvent {
    /// The limiter of direct connections had a slot, or not.
    DirectSlot(bool),
    /// The upstream is connected.
    Connected,
    /// The upstream could not be connected, for this reason.
    ConnectFailed(String),
    /// The client-protocol budget, this many seconds when the phase began,
    /// ran out.
    BudgetExpired(u64),
    /// Waiting for the first payload failed.
    PeekFailed,
    /// The client closed before it sent anything.
    ClientClosed,
    /// The client kept silent and the upstream, dialed by the IP, spoke first.
    UpstreamGreeted(Vec<u8>),
    /// The client's first payload, and the host name found in it.
    ClientPayload(Vec<u8>, Option<String>),
}

/// [`SessionEvent`] over views.
pub enum SessionEventView {
    DirectSlot(bool),
    Connected,
    ConnectFailed(Seq<char>),
    BudgetExpired(u64),
    PeekFailed,
    ClientClosed,
    UpstreamGreeted(Seq<u8>),
    ClientPayload(Seq<u8>, Option<Seq<char>>),
}

/// An optional text over its view.
pub open spec fn option_text(s: Option<String>) -> Option<Seq<char>> {
    match s {
        Some(s) => Some(s@),
        None => None,
    }
}

impl View for SessionEvent {
    type V = SessionEventView;

    open spec fn view(&self) -> SessionEventView {
        match self {
            SessionEvent::DirectSlot(granted) => SessionEventView::DirectSlot(*granted),
            SessionEvent::Connected => SessionEventView::Connected,
            SessionEvent::ConnectFailed(e) => SessionEventView::ConnectFailed(e@),
            SessionEvent::BudgetExpired(secs) => SessionEventView::BudgetExpired(*secs),
            SessionEvent::PeekFailed => SessionEventView::PeekFailed,
            SessionEvent::ClientClosed => SessionEventView::ClientClosed,
            SessionEvent::UpstreamGreeted(banner) => SessionEventView::UpstreamGreeted(banner@),
            SessionEvent::ClientPayload(prefix, host) => SessionEventView::ClientPayload(
                prefix@,
                option_text(*host),
            ),
        }
    }
}

/// How a session that opens no tunnel ends for the server.
#[derive(Clone, Copy, Debug, PartialEq, Eq, Structural)]
pub enum Ending {
    /// Nothing went wrong that is not logged or answered already.
    Quiet,
    /// With the error of the operation that has just failed.
    Failed,
}

/// What to do next for a session.
#[derive(Debug)]
pub enum SessionAction {
    /// Try to get a slot for a direct connection.
    AcquireDirectSlot,
    /// Connect to the target from this server.
    DialDirect,
    /// Connect to this target through an upstream proxy.
    DialPool(String),
    /// Reply `200`, then wait for the first payload, beginning with what the
    /// client pipelined.
    EstablishAndPeek,
    /// Write the response and close; the session ends this way.
    Refuse(Response, Ending),
    /// Reply `200`, then forward, beginning with these bytes of the client.
    EstablishAndTunnel(Vec<u8>),
    /// Relay these bytes to the client, then forward.
    GreetAndTunnel(Vec<u8>),
    /// Forward, beginning with these bytes of the client.
    Tunnel(Vec<u8>),
    /// Close without another word, for this reason.
    Fail(String),
    /// Close without another word; the session ends this way.
    Close(Ending),
}

/// [`SessionAction`] over views.
pub enum SessionActionView {
    AcquireDirectSlot,
    DialDirect,
    DialPool(Seq<char>),
    EstablishAndPeek,
    Refuse(Response, Ending),
    EstablishAndTunnel(Seq<u8>),
    GreetAndTunnel(Seq<u8>),
    Tunnel(Seq<u8>),
    Fail(Seq<char>),
    Close(Ending),
}

impl View for SessionAction {
    type V = SessionActionView;

    open spec fn view(&self) -> SessionActionView {
        match self {
            SessionAction::AcquireDirectSlot => SessionActionView::AcquireDirectSlot,
            SessionAction::DialDirect => SessionActionView::DialDirect,
            SessionAction::DialPool(target) => SessionActionView::DialPool(target@),
            SessionAction::EstablishAndPeek => SessionActionView::EstablishAndPeek,
            SessionAction::Refuse(response, ending) => SessionActionView::Refuse(
                *response,
                *ending,
            ),
            SessionAction::EstablishAndTunnel(b) => SessionActionView::EstablishAndTunnel(b@),
            SessionAction::GreetAndTunnel(b) => SessionActionView::GreetAndTunnel(b@),
            SessionAction::Tunnel(b) => SessionActionView::Tunnel(b@),
            SessionAction::Fail(reason) => SessionActionView::Fail(reason@),
            SessionAction::Close(ending) => SessionActionView::Close(*ending),
        }
    }
}

/// A log line of a session.
#[derive(Debug)]
pub struct SessionLog {
    pub kind: LogKind,
    pub text: String,
}

/// [`SessionLog`] over views.
pub struct SessionLogView {
    pub kind: LogKind,
    pub text: Seq<char>,
}

/// An optional log line over its view.
pub open spec fn log_view(l: Option<SessionLog>) -> Option<SessionLogView> {
    match l {
        Some(l) => Some(SessionLogView { kind: l.kind, text: l.text@ }),
        None => None,
    }
}

/// An accepted CONNECT request on its way to a tunnel.
#[derive(Debug)]
pub struct HttpSession {
    target: String,
    client_user: Option<String>,
    /// Bytes of the client that the upstream has not got yet.
    buffered: Vec<u8>,
    /// The target that an upstream is dialed for.
    effective: String,
    max_concurrent_direct: u64,
    state: SessionState,
}

/// [`HttpSession`] over views.
#[verifier::ext_equal]
pub struct SessionView {
    pub target: Seq<char>,
    pub client_user: Option<Seq<char>>,
    pub buffered: Seq<u8>,
    pub effective: Seq<char>,
    pub max_concurrent_direct: u64,
    pub state: SessionState,
}

impl View for HttpSession {
    type V = SessionView;

    closed spec fn view(&self) -> SessionView {
        SessionView {
            target: self.target@,
            client_user: option_text(self.client_user),
            buffered: self.buffered@,
            effective: self.effective@,
            max_concurrent_direct: self.max_concurrent_direct,
            state: self.state,
        }
    }
}

/// What holds of every session: only a named user waits for a direct slot, and
/// only behind an IPv4 literal is a payload awaited.
pub open spec fn session_ok(v: SessionView) -> bool {
    &&& v.state == SessionState::WantsDirectSlot ==> v.client_user is Some
    &&& v.state == SessionState::Peeking ==> ipv4_port(v.target) is Some
}

/// How a client is named in the log.
pub open spec fn client_tag(user: Option<Seq<char>>) -> Seq<char> {
    match user {
        Some(u) => " [client="@ + u + "]"@,
        None => " [client=anon]"@,
    }
}

/// Names a client for the log.
fn client_tag_text(user: &Option<String>) -> (r: String)
    ensures
        r@ == client_tag(option_text(*user)),
{
    match user {
        Some(u) => join(&join(" [client=", u), "]"),
        None => " [client=anon]".to_owned(),
    }
}

/// Why a session ends when the first payload does not come in time.
pub open spec fn peek_timeout_text(secs: u64, user: Option<Seq<char>>) -> Seq<char> {
    "client sent no payload within the remaining "@ + number_text(secs as nat, 10)
        + "s of the client-protocol budget ? recovery peek timeout"@ + client_tag(user)
}

/// Says why a session ends when the first payload does not come in time.
fn peek_timeout(secs: u64, user: &Option<String>) -> (r: String)
    ensures
        r@ == peek_timeout_text(secs, option_text(*user)),
{
    let start = join("client sent no payload within the remaining ", &decimal(secs));
    let middle = join(&start, "s of the client-protocol budget ? recovery peek timeout");
    join(&middle, &client_tag_text(user))
}

/// Why a handshake ends that does not come to an end in time.
pub fn handshake_timeout(secs: u64) -> (r: String)
    ensures
        r@ == "client HTTP CONNECT timed out with only "@ + number_text(secs as nat, 10)
            + "s left of the client-protocol budget"@,
{
    join(
        &join("client HTTP CONNECT timed out with only ", &decimal(secs)),
        "s left of the client-protocol budget",
    )
}

/// The first state and action for an accepted request. A direct user goes
/// past the pool; an anonymous client never does. Behind an IP literal the
/// host name is recovered from the client's payload, if that is on and the
/// client still has time: an expired budget sends nothing.
pub open spec fn begin_of(
    request: ConnectRequestView,
    is_direct: bool,
    recover: bool,
    budget_expired: bool,
) -> (SessionState, SessionActionView) {
    if is_direct && request.client_user is Some {
        (SessionState::WantsDirectSlot, SessionActionView::AcquireDirectSlot)
    } else if recover && ipv4_port(request.target) is Some {
        if budget_expired {
            (
                SessionState::Closed,
                SessionActionView::Fail(peek_timeout_text(0, request.client_user)),
            )
        } else {
            (SessionState::Peeking, SessionActionView::EstablishAndPeek)
        }
    } else {
        (SessionState::Dialing, SessionActionView::DialPool(request.target))
    }
}

/// One step of a session: the next session, the action, the log line. `None`
/// where the event cannot happen in the state. `banned` are the texts that the
/// ban list matches.
pub open spec fn step_of(v: SessionView, event: SessionEventView, banned: Set<Seq<char>>) -> Option<
    (SessionView, SessionActionView, Option<SessionLogView>),
> {
    let tag = client_tag(v.client_user);
    match (v.state, event) {
        (SessionState::WantsDirectSlot, SessionEventView::DirectSlot(true)) => Some(
            (
                SessionView { state: SessionState::Dialing, ..v },
                SessionActionView::DialDirect,
                None,
            ),
        ),
        (SessionState::WantsDirectSlot, SessionEventView::DirectSlot(false)) => Some(
            (
                SessionView { state: SessionState::Closed, ..v },
                SessionActionView::Refuse(Response::ServiceUnavailable, Ending::Quiet),
                Some(
                    SessionLogView {
                        kind: LogKind::ConnectionError,
                        text: "Direct cap reached ("@ + number_text(
                            v.max_concurrent_direct as nat,
                            10,
                        ) + ") — dropping client="@ + v.client_user->0 + " target="@ + v.target,
                    },
                ),
            ),
        ),
        (SessionState::Dialing, SessionEventView::Connected) => Some(
            (
                SessionView { state: SessionState::Tunneling, buffered: seq![], ..v },
                SessionActionView::EstablishAndTunnel(v.buffered),
                None,
            ),
        ),
        (SessionState::Dialing, SessionEventView::ConnectFailed(_)) => Some(
            (
                SessionView { state: SessionState::Closed, ..v },
                SessionActionView::Refuse(
                    if banned.contains(v.target) {
                        Response::Forbidden
                    } else {
                        Response::BadGateway
                    },
                    Ending::Failed,
                ),
                None,
            ),
        ),
        (SessionState::Peeking, SessionEventView::BudgetExpired(secs)) => Some(
            (
                SessionView { state: SessionState::Closed, ..v },
                SessionActionView::Fail(peek_timeout_text(secs, v.client_user)),
                None,
            ),
        ),
        (SessionState::Peeking, SessionEventView::PeekFailed) => Some(
            (
                SessionView { state: SessionState::Closed, ..v },
                SessionActionView::Close(Ending::Failed),
                None,
            ),
        ),
        (SessionState::Peeking, SessionEventView::ClientClosed) => Some(
            (
                SessionView { state: SessionState::Closed, ..v },
                SessionActionView::Close(Ending::Quiet),
                None,
            ),
        ),
        (SessionState::Peeking, SessionEventView::UpstreamGreeted(banner)) => Some(
            (
                SessionView { state: SessionState::Tunneling, ..v },
                SessionActionView::GreetAndTunnel(banner),
                Some(
                    SessionLogView {
                        kind: LogKind::Attempt,
                        text: "Client silent; upstream "@ + v.target
                            + " greeted first — forwarding by IP without recovery"@ + tag,
                    },
                ),
            ),
        ),
        (SessionState::Peeking, SessionEventView::ClientPayload(prefix, Some(host))) => {
            let effective = host + ":"@ + ipv4_port(v.target)->0;
            Some(
                (
                    SessionView {
                        state: SessionState::Redialing,
                        buffered: prefix,
                        effective,
                        ..v
                    },
                    SessionActionView::DialPool(effective),
                    Some(
                        SessionLogView {
                            kind: LogKind::CacheWrite,
                            text: "Recovered host "@ + effective + " from payload for IP "@
                                + v.target + tag,
                        },
                    ),
                ),
            )
        },
        (SessionState::Peeking, SessionEventView::ClientPayload(prefix, None)) => Some(
            (
                SessionView {
                    state: SessionState::Redialing,
                    buffered: prefix,
                    effective: v.target,
                    ..v
                },
                SessionActionView::DialPool(v.target),
                Some(
                    SessionLogView {
                        kind: LogKind::Attempt,
                        text: "No host recoverable from payload for "@ + v.target + " — using IP"@
                            + tag,
                    },
                ),
            ),
        ),
        (SessionState::Redialing, SessionEventView::Connected) => Some(
            (
                SessionView { state: SessionState::Tunneling, buffered: seq![], ..v },
                SessionActionView::Tunnel(v.buffered),
                None,
            ),
        ),
        (SessionState::Redialing, SessionEventView::ConnectFailed(e)) => Some(
            (
                SessionView { state: SessionState::Closed, ..v },
                SessionActionView::Close(Ending::Failed),
                Some(
                    SessionLogView {
                        kind: LogKind::ConnectionError,
                        text: "Recovery upstream failed for "@ + v.effective + ": "@ + e + tag,
                    },
                ),
            ),
        ),
        _ => None,
    }
}

/// The action of a step that can be taken.
pub open spec fn action_of(
    v: SessionView,
    event: SessionEventView,
    banned: Set<Seq<char>>,
) -> SessionActionView {
    let (_, action, _) = step_of(v, event, banned)->0;
    action
}

/// The session after a step that can be taken.
pub open spec fn next_of(
    v: SessionView,
    event: SessionEventView,
    banned: Set<Seq<char>>,
) -> SessionView {
    let (next, _, _) = step_of(v, event, banned)->0;
    next
}

/// A step as taken, over views.
pub open spec fn step_view(
    next: SessionView,
    r: Option<(SessionAction, Option<SessionLog>)>,
) -> Option<(SessionView, SessionActionView, Option<SessionLogView>)> {
    match r {
        Some((action, log)) => Some((next, action@, log_view(log))),
        None => None,
    }
}

impl HttpSession {
    /// Starts the session of an accepted request. `is_direct` says whether
    /// its user bypasses the pool, `recover` whether host names are recovered
    /// from payloads, `budget_expired` whether the client-protocol deadline
    /// has passed.
    pub fn begin(
        request: ConnectRequest,
        is_direct: bool,
        recover: bool,
        budget_expired: bool,
        max_concurrent_direct: u64,
    ) -> (r: (HttpSession, SessionAction))
        ensures
            r.0@ == (SessionView {
                target: request@.target,
                client_user: request@.client_user,
                buffered: request@.pipelined,
                effective: request@.target,
                max_concurrent_direct,
                state: begin_of(request@, is_direct, recover, budget_expired).0,
            }),
            r.1@ == begin_of(request@, is_direct, recover, budget_expired).1,
            session_ok(r.0@),
    {
        let (state, action) = if is_direct && request.client_user.is_some() {
            (SessionState::WantsDirectSlot, SessionAction::AcquireDirectSlot)
        } else if recover && ipv4_literal_port(&request.target).is_some() {
            if budget_expired {
                (SessionState::Closed, SessionAction::Fail(peek_timeout(0, &request.client_user)))
            } else {
                (SessionState::Peeking, SessionAction::EstablishAndPeek)
            }
        } else {
            (SessionState::Dialing, SessionAction::DialPool(request.target.clone()))
        };
        let effective = request.target.clone();
        (
            HttpSession {
                target: request.target,
                client_user: request.client_user,
                buffered: request.pipelined,
                effective,
                max_concurrent_direct,
                state,
            },
            action,
        )
    }

    /// Takes one step. `None`, and no change, if the event cannot happen now.
    pub fn step(&mut self, event: SessionEvent, banned: &RegexSet) -> (r: Option<
        (SessionAction, Option<SessionLog>),
    >)
        requires
            session_ok(old(self)@),
        ensures
            session_ok(final(self)@),
            step_view(final(self)@, r) == step_of(old(self)@, event@, matched_texts(*banned)),
            r is None ==> final(self)@ == old(self)@,
    {
        match (self.state, event) {
            (SessionState::WantsDirectSlot, SessionEvent::DirectSlot(granted)) => {
                if granted {
                    self.state = SessionState::Dialing;
                    return Some((SessionAction::DialDirect, None));
                }
                let cap = decimal(self.max_concurrent_direct);
                let start = join(&join("Direct cap reached (", &cap), ") — dropping client=");
                let named = join(&start, self.client_user.as_ref().unwrap());
                let text = join(&join(&named, " target="), &self.target);
                self.state = SessionState::Closed;
                Some(
                    (
                        SessionAction::Refuse(Response::ServiceUnavailable, Ending::Quiet),
                        Some(SessionLog { kind: LogKind::ConnectionError, text }),
                    ),
                )
            },
            (SessionState::Dialing, SessionEvent::Connected) => {
                self.state = SessionState::Tunneling;
                let prefix = self.take_buffered();
                Some((SessionAction::EstablishAndTunnel(prefix), None))
            },
            (SessionState::Dialing, SessionEvent::ConnectFailed(_)) => {
                let response = if regex_set_matches(banned, &self.target) {
                    Response::Forbidden
                } else {
                    Response::BadGateway
                };
                self.state = SessionState::Closed;
                Some((SessionAction::Refuse(response, Ending::Failed), None))
            },
            (SessionState::Peeking, SessionEvent::BudgetExpired(secs)) => {
                let text = peek_timeout(secs, &self.client_user);
                self.state = SessionState::Closed;
                Some((SessionAction::Fail(text), None))
            },
            (SessionState::Peeking, SessionEvent::PeekFailed) => {
                self.state = SessionState::Closed;
                Some((SessionAction::Close(Ending::Failed), None))
            },
            (SessionState::Peeking, SessionEvent::ClientClosed) => {
                self.state = SessionState::Closed;
                Some((SessionAction::Close(Ending::Quiet), None))
            },
            (SessionState::Peeking, SessionEvent::UpstreamGreeted(banner)) => {
                let start = join("Client silent; upstream ", &self.target);
                let middle = join(
                    &start,
                    " greeted first — forwarding by IP without recovery",
                );
                let text = join(&middle, &client_tag_text(&self.client_user));
                self.state = SessionState::Tunneling;
                Some(
                    (
                        SessionAction::GreetAndTunnel(banner),
                        Some(SessionLog { kind: LogKind::Attempt, text }),
                    ),
                )
            },
            (SessionState::Peeking, SessionEvent::ClientPayload(prefix, host)) => {
                self.buffered = prefix;
                self.state = SessionState::Redialing;
                match host {
                    Some(host) => {
                        let port = ipv4_literal_port(&self.target).unwrap();
                        let effective = join(&join(&host, ":"), port);
                        let head = join("Recovered host ", &effective);
                        let middle = join(&join(&head, " from payload for IP "), &self.target);
                        let text = join(&middle, &client_tag_text(&self.client_user));
                        self.effective = effective.clone();
                        Some(
                            (
                                SessionAction::DialPool(effective),
                                Some(SessionLog { kind: LogKind::CacheWrite, text }),
                            ),
                        )
                    },
                    None => {
                        let head = join("No host recoverable from payload for ", &self.target);
                        let middle = join(&head, " — using IP");
                        let text = join(&middle, &client_tag_text(&self.client_user));
                        self.effective = self.target.clone();
                        Some(
                            (
                                SessionAction::DialPool(self.target.clone()),
                                Some(SessionLog { kind: LogKind::Attempt, text }),
                            ),
                        )
                    },
                }
            },
            (SessionState::Redialing, SessionEvent::Connected) => {
                self.state = SessionState::Tunneling;
                let prefix = self.take_buffered();
                Some((SessionAction::Tunnel(prefix), None))
            },
            (SessionState::Redialing, SessionEvent::ConnectFailed(e)) => {
                let start = join("Recovery upstream failed for ", &self.effective);
                let middle = join(&join(&start, ": "), &e);
                let text = join(&middle, &client_tag_text(&self.client_user));
                self.state = SessionState::Closed;
                Some(
                    (
                        SessionAction::Close(Ending::Failed),
                        Some(SessionLog { kind: LogKind::ConnectionError, text }),
                    ),
                )
            },
            _ => None,
        }
    }

    /// Hands out the buffered bytes.
    fn take_buffered(&mut self) -> (r: Vec<u8>)
        ensures
            r@ == old(self)@.buffered,
            final(self)@ == (SessionView { buffered: seq![], ..old(self)@ }),
    {
        let mut taken: Vec<u8> = Vec::new();
        taken.append(&mut self.buffered);
        assert(taken@ =~= old(self)@.buffered);
        assert(self.buffered@ =~= seq![]);
        taken
    }

    /// Where the session stands.
    pub fn state(&self) -> (r: SessionState)
        ensures
            r == self@.state,
    {
        self.state
    }

    /// The target that the client asked for.
    pub fn target(&self) -> (r: &str)
        ensures
            r@ == self@.target,
    {
        &self.target
    }

    /// The bytes of the client that the upstream has not got yet.
    pub fn buffered(&self) -> (r: &[u8])
        ensures
            r@ == self@.buffered,
    {
        self.buffered.as_slice()
    }
}

/// An anonymous client never gets a direct connection.
pub proof fn anonymous_client_is_never_direct(
    request: ConnectRequestView,
    is_direct: bool,
    recover: bool,
    budget_expired: bool,
)
    requires
        request.client_user is None,
    ensures
        begin_of(request, is_direct, recover, budget_expired).1
            != SessionActionView::AcquireDirectSlot,
{
}

/// A client whose budget has run out before the early reply gets none.
pub proof fn expired_budget_sends_nothing(request: ConnectRequestView, is_direct: bool)
    requires
        !is_direct || request.client_user is None,
        ipv4_port(request.target) is Some,
    ensures
        begin_of(request, is_direct, true, true).0 == SessionState::Closed,
        begin_of(request, is_direct, true, true).1 is Fail,
{
}

/// Whether an action writes a status line to the client.
pub open spec fn writes_status(a: SessionActionView) -> bool {
    a is EstablishAndPeek || a is Refuse || a is EstablishAndTunnel
}

/// A tunnel without recovery is only announced once the upstream is there, and
/// an upstream that is not there is reported as an error.
pub proof fn established_means_connected(
    v: SessionView,
    event: SessionEventView,
    banned: Set<Seq<char>>,
)
    requires
        step_of(v, event, banned) is Some,
    ensures
        action_of(v, event, banned) is EstablishAndTunnel <==> v.state == SessionState::Dialing
            && event is Connected,
        v.state == SessionState::Dialing && event is ConnectFailed ==> action_of(
            v,
            event,
            banned,
        ) == SessionActionView::Refuse(
            if banned.contains(v.target) {
                Response::Forbidden
            } else {
                Response::BadGateway
            },
            Ending::Failed,
        ),
{
}

/// The number of status lines that a session still writes in a run of events;
/// events that cannot happen are passed over.
pub open spec fn statuses_in(
    v: SessionView,
    events: Seq<SessionEventView>,
    banned: Set<Seq<char>>,
) -> nat
    decreases events.len(),
{
    if events.len() == 0 {
        0
    } else {
        match step_of(v, events[0], banned) {
            Some((next, action, _)) => {
                let rest = statuses_in(next, events.skip(1), banned);
                if writes_status(action) {
                    rest + 1
                } else {
                    rest
                }
            },
            None => statuses_in(v, events.skip(1), banned),
        }
    }
}

/// Once a status line is out, no other follows; before, at most one does.
proof fn lemma_statuses(v: SessionView, events: Seq<SessionEventView>, banned: Set<Seq<char>>)
    ensures
        statuses_in(v, events, banned) <= (if v.state == SessionState::WantsDirectSlot || v.state
            == SessionState::Dialing {
            1nat
        } else {
            0nat
        }),
    decreases events.len(),
{
    if events.len() > 0 {
        match step_of(v, events[0], banned) {
            Some((next, _, _)) => lemma_statuses(next, events.skip(1), banned),
            None => lemma_statuses(v, events.skip(1), banned),
        }
    }
}

/// Whatever happens, a client gets at most one status line: an error is never
/// reported after `200`.
pub proof fn at_most_one_status_line(
    request: ConnectRequestView,
    is_direct: bool,
    recover: bool,
    budget_expired: bool,
    v: SessionView,
    events: Seq<SessionEventView>,
    banned: Set<Seq<char>>,
)
    requires
        v.state == begin_of(request, is_direct, recover, budget_expired).0,
    ensures
        statuses_in(v, events, banned) + (if writes_status(
            begin_of(request, is_direct, recover, budget_expired).1,
        ) {
            1nat
        } else {
            0nat
        }) <= 1,
{
    lemma_statuses(v, events, banned);
}

/// Without recovery the upstream gets first what the client pipelined past its
/// request, unchanged.
pub proof fn pipelined_bytes_are_forwarded(
    v: SessionView,
    event: SessionEventView,
    banned: Set<Seq<char>>,
)
    requires
        v.state == SessionState::WantsDirectSlot || v.state == SessionState::Dialing,
        step_of(v, event, banned) is Some,
    ensures
        match action_of(v, event, banned) {
            SessionActionView::EstablishAndTunnel(prefix) => prefix == v.buffered,
            _ => next_of(v, event, banned).buffered == v.buffered,
        },
{
}

} // verus!
