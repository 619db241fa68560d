//! What holds of every session, told by its target and its events.

use vstd::prelude::*;

use crate::http::connect::ConnectRequestView;
use crate::http::response::Response;
use crate::http::session::{
    action_of, begin_of, digits_value, ipv4_port, is_dotted_octets, is_octet, step_of,
    step_view, Ending, SessionAction, SessionActionView, SessionEvent, SessionEventView, SessionLog,
    SessionLogView, SessionState, SessionView,
};
use crate::logger::log_config::LogKind;
use crate::text::{
    digit_char, digit_value, first_split_cuts_the_text, first_split_finds_the_sides,
    last_split_cuts_the_text, last_split_finds_the_sides, number_text, number_text_has_its_value,
    split_first, split_last, value_of,
};

verus! {

/// Whether a text is made of decimal digits.
pub open spec fn is_digits(s: Seq<char>) -> bool {
    forall|i: int| 0 <= i < s.len() ==> '0' <= #[trigger] s[i] <= '9'
}

/// Decimal digits have one value.
proof fn lemma_digits_value(s: Seq<char>)
    requires
        is_digits(s),
    ensures
        digits_value(s) == value_of(s, 10),
        digits_value(s) >= 0,
    decreases s.len(),
{
    if s.len() > 0 {
        assert('0' <= s[s.len() - 1] <= '9');
        lemma_digits_value(s.drop_last());
    }
}

/// A number is written in one way without leading zeros.
proof fn lemma_text_of_value(s: Seq<char>)
    requires
        is_digits(s),
        s.len() > 0,
        s.len() > 1 ==> s[0] != '0',
    ensures
        value_of(s, 10) >= 0,
        s[0] != '0' ==> value_of(s, 10) > 0,
        number_text(value_of(s, 10) as nat, 10) == s,
    decreases s.len(),
{
    let start = s.drop_last();
    let c = s.last();
    assert('0' <= s[s.len() - 1] <= '9');
    let d = digit_value(c);
    assert(0 <= d < 10);
    assert(c == '0' <==> d == 0);
    assert(digit_char(d as nat) == c);
    if s.len() == 1 {
        assert(start =~= seq![]);
        assert(value_of(start, 10) == 0);
        assert(number_text(d as nat, 10) =~= s);
    } else {
        assert(start[0] == s[0]);
        lemma_text_of_value(start);
        let v = value_of(start, 10);
        let n = value_of(s, 10);
        assert(n == v * 10 + d);
        assert(n >= 10);
        assert(n / 10 == v && n % 10 == d);
        assert(number_text(n as nat, 10) == number_text(v as nat, 10).push(digit_char(d as nat)));
        assert(s =~= start.push(c));
    }
}

/// The octets are the texts of the numbers from 0 to 255.
pub proof fn octets_are_numbers_up_to_255(s: Seq<char>) -> (n: nat)
    ensures
        is_octet(s) ==> n <= 255 && s == number_text(n, 10),
{
    if is_octet(s) {
        lemma_digits_value(s);
        lemma_text_of_value(s);
        digits_value(s) as nat
    } else {
        0
    }
}

/// The text of a number up to 255 is an octet.
pub proof fn number_up_to_255_is_an_octet(n: nat)
    requires
        n <= 255,
    ensures
        is_octet(number_text(n, 10)),
        !number_text(n, 10).contains('.'),
        !number_text(n, 10).contains(':'),
{
    let s = number_text(n, 10);
    number_text_has_its_value(n, 10);
    reveal_with_fuel(number_text, 4);
    assert(1 <= s.len() <= 3);
    assert forall|i: int| 0 <= i < s.len() implies '0' <= #[trigger] s[i] <= '9' by {
        let c = s[i];
        assert(('0' <= c <= '9' || 'a' <= c <= 'f') && 0 <= digit_value(c) < 10);
    }
    lemma_digits_value(s);
}

/// An IPv4 address in dotted decimal notation.
pub open spec fn ipv4_text(a: nat, b: nat, c: nat, d: nat) -> Seq<char> {
    number_text(a, 10) + seq!['.'] + (number_text(b, 10) + seq!['.'] + (number_text(c, 10)
        + seq!['.'] + number_text(d, 10)))
}

/// A target `IPv4:port` has its port, whatever the address and the port.
pub proof fn ipv4_target_has_its_port(a: nat, b: nat, c: nat, d: nat, port: Seq<char>)
    requires
        a <= 255,
        b <= 255,
        c <= 255,
        d <= 255,
        !port.contains(':'),
    ensures
        ipv4_port(ipv4_text(a, b, c, d) + seq![':'] + port) == Some(port),
{
    number_up_to_255_is_an_octet(a);
    number_up_to_255_is_an_octet(b);
    number_up_to_255_is_an_octet(c);
    number_up_to_255_is_an_octet(d);
    let td = number_text(d, 10);
    let tc = number_text(c, 10) + seq!['.'] + td;
    let tb = number_text(b, 10) + seq!['.'] + tc;
    first_split_finds_the_sides(number_text(c, 10), td, '.');
    first_split_finds_the_sides(number_text(b, 10), tc, '.');
    first_split_finds_the_sides(number_text(a, 10), tb, '.');
    assert(is_dotted_octets(td, 1));
    assert(is_dotted_octets(tc, 2));
    assert(is_dotted_octets(tb, 3));
    assert(is_dotted_octets(ipv4_text(a, b, c, d), 4));
    last_split_finds_the_sides(ipv4_text(a, b, c, d), port, ':');
}

/// No other target has one.
pub proof fn only_ipv4_targets_have_a_port(target: Seq<char>) -> (address: (nat, nat, nat, nat))
    ensures
        ipv4_port(target) matches Some(port) ==> {
            let (a, b, c, d) = address;
            &&& a <= 255 && b <= 255 && c <= 255 && d <= 255
            &&& !port.contains(':')
            &&& target == ipv4_text(a, b, c, d) + seq![':'] + port
        },
{
    if ipv4_port(target) is Some {
        last_split_cuts_the_text(target, ':');
        let (host, port) = split_last(target, ':')->0;
        reveal_with_fuel(is_dotted_octets, 4);
        first_split_cuts_the_text(host, '.');
        let (sa, tb) = split_first(host, '.')->0;
        first_split_cuts_the_text(tb, '.');
        let (sb, tc) = split_first(tb, '.')->0;
        first_split_cuts_the_text(tc, '.');
        let (sc, sd) = split_first(tc, '.')->0;
        let a = octets_are_numbers_up_to_255(sa);
        let b = octets_are_numbers_up_to_255(sb);
        let c = octets_are_numbers_up_to_255(sc);
        let d = octets_are_numbers_up_to_255(sd);
        (a, b, c, d)
    } else {
        (0, 0, 0, 0)
    }
}

/// A direct user bypasses the pool, whatever the target.
pub proof fn direct_user_bypasses_the_pool(
    request: ConnectRequestView,
    recover: bool,
    budget_expired: bool,
)
    requires
        request.client_user is Some,
    ensures
        begin_of(request, true, recover, budget_expired) == (
            SessionState::WantsDirectSlot,
            SessionActionView::AcquireDirectSlot,
        ),
{
}

/// Any other client is dialed for through the pool, under the target that it
/// asked for, unless a host name is to be recovered.
pub proof fn pool_client_is_dialed_for_as_asked(
    request: ConnectRequestView,
    is_direct: bool,
    recover: bool,
    budget_expired: bool,
)
    requires
        !is_direct || request.client_user is None,
        !recover || ipv4_port(request.target) is None,
    ensures
        begin_of(request, is_direct, recover, budget_expired) == (
            SessionState::Dialing,
            SessionActionView::DialPool(request.target),
        ),
{
}

/// Behind an IPv4 literal, with recovery on and time left, the client is asked
/// for its payload first.
pub proof fn ipv4_client_is_peeked_at(
    request: ConnectRequestView,
    is_direct: bool,
    a: nat,
    b: nat,
    c: nat,
    d: nat,
    port: Seq<char>,
)
    requires
        !is_direct || request.client_user is None,
        a <= 255,
        b <= 255,
        c <= 255,
        d <= 255,
        !port.contains(':'),
        request.target == ipv4_text(a, b, c, d) + seq![':'] + port,
    ensures
        begin_of(request, is_direct, true, false) == (
            SessionState::Peeking,
            SessionActionView::EstablishAndPeek,
        ),
        begin_of(request, is_direct, true, true).0 == SessionState::Closed,
        begin_of(request, is_direct, true, true).1 is Fail,
{
    ipv4_target_has_its_port(a, b, c, d, port);
}

/// A recovered host is dialed with the port that the client asked for: the
/// text behind the last colon of its own target. The payload is kept for the
/// upstream, unchanged.
pub proof fn recovered_host_keeps_the_port(
    v: SessionView,
    address: Seq<char>,
    port: Seq<char>,
    payload: Seq<u8>,
    host: Seq<char>,
    banned: Set<Seq<char>>,
)
    requires
        v.state == SessionState::Peeking,
        ipv4_port(v.target) is Some,
        v.target == address + seq![':'] + port,
        !port.contains(':'),
    ensures
        step_of(v, SessionEventView::ClientPayload(payload, Some(host)), banned) matches Some(
            (next, action, _),
        ) && action == SessionActionView::DialPool(host + seq![':'] + port) && next.effective
            == host + seq![':'] + port && next.buffered == payload && next.state
            == SessionState::Redialing && next.target == v.target && next.client_user
            == v.client_user,
{
    reveal_strlit(":");
    assert(":"@ =~= seq![':']);
    last_split_finds_the_sides(address, port, ':');
}

/// Two sessions that differ only in the port are dialed for under texts that
/// differ only in the port.
pub proof fn ports_stay_apart(
    v1: SessionView,
    v2: SessionView,
    address: Seq<char>,
    port1: Seq<char>,
    port2: Seq<char>,
    payload: Seq<u8>,
    host: Seq<char>,
    banned: Set<Seq<char>>,
)
    requires
        v1.state == SessionState::Peeking,
        v2.state == SessionState::Peeking,
        ipv4_port(v1.target) is Some,
        ipv4_port(v2.target) is Some,
        v1.target == address + seq![':'] + port1,
        v2.target == address + seq![':'] + port2,
        !port1.contains(':'),
        !port2.contains(':'),
        port1 != port2,
    ensures
        action_of(v1, SessionEventView::ClientPayload(payload, Some(host)), banned) != action_of(
            v2,
            SessionEventView::ClientPayload(payload, Some(host)),
            banned,
        ),
{
    recovered_host_keeps_the_port(v1, address, port1, payload, host, banned);
    recovered_host_keeps_the_port(v2, address, port2, payload, host, banned);
    let d1 = host + seq![':'] + port1;
    let d2 = host + seq![':'] + port2;
    let n = host.len() as int + 1;
    assert(d1.skip(n) =~= port1);
    assert(d2.skip(n) =~= port2);
}

/// Without a host in the payload the target is dialed as the client gave it.
pub proof fn payload_without_a_host_dials_the_target(
    v: SessionView,
    payload: Seq<u8>,
    banned: Set<Seq<char>>,
)
    requires
        v.state == SessionState::Peeking,
    ensures
        step_of(v, SessionEventView::ClientPayload(payload, None), banned) matches Some(
            (next, action, _),
        ) && action == SessionActionView::DialPool(v.target) && next.effective == v.target
            && next.buffered == payload && next.state == SessionState::Redialing && next.target
            == v.target && next.client_user == v.client_user,
{
}

/// The upstream gets the client's bytes once, unchanged: behind `200` where it
/// was still owed, and without a second one where it was not.
pub proof fn connected_upstream_gets_the_bytes(v: SessionView, banned: Set<Seq<char>>)
    ensures
        v.state == SessionState::Dialing ==> (step_of(v, SessionEventView::Connected, banned) matches
            Some((next, action, log)) && action == SessionActionView::EstablishAndTunnel(v.buffered)
            && next.state == SessionState::Tunneling && next.buffered.len() == 0 && log is None),
        v.state == SessionState::Redialing ==> (step_of(v, SessionEventView::Connected, banned)
            matches Some((next, action, log)) && action == SessionActionView::Tunnel(v.buffered)
            && next.state == SessionState::Tunneling && next.buffered.len() == 0 && log is None),
{
}

/// An upstream that speaks first is relayed as it spoke.
pub proof fn greeting_is_relayed(v: SessionView, banner: Seq<u8>, banned: Set<Seq<char>>)
    requires
        v.state == SessionState::Peeking,
    ensures
        step_of(v, SessionEventView::UpstreamGreeted(banner), banned) matches Some(
            (next, action, _),
        ) && action == SessionActionView::GreetAndTunnel(banner) && next.state
            == SessionState::Tunneling,
{
}

/// A direct client is dialed for with a slot, and refused without one.
pub proof fn direct_client_needs_a_slot(v: SessionView, banned: Set<Seq<char>>)
    requires
        v.state == SessionState::WantsDirectSlot,
    ensures
        step_of(v, SessionEventView::DirectSlot(true), banned) matches Some((next, action, log))
            && action == SessionActionView::DialDirect && next.state == SessionState::Dialing
            && next.target == v.target && next.buffered == v.buffered && log is None,
        step_of(v, SessionEventView::DirectSlot(false), banned) matches Some((next, action, log))
            && action == SessionActionView::Refuse(Response::ServiceUnavailable, Ending::Quiet)
            && next.state == SessionState::Closed && log is Some,
{
}

/// A session ends in an error exactly where an operation of the server failed,
/// and its client is told only as long as no `200` is out.
pub proof fn failures_end_the_session(
    v: SessionView,
    reason: Seq<char>,
    secs: u64,
    banned: Set<Seq<char>>,
)
    ensures
        v.state == SessionState::Dialing ==> (step_of(
            v,
            SessionEventView::ConnectFailed(reason),
            banned,
        ) matches Some((next, action, log)) && next.state == SessionState::Closed && log is None
            && action == SessionActionView::Refuse(
            if banned.contains(v.target) {
                Response::Forbidden
            } else {
                Response::BadGateway
            },
            Ending::Failed,
        )),
        v.state == SessionState::Redialing ==> (step_of(
            v,
            SessionEventView::ConnectFailed(reason),
            banned,
        ) matches Some((next, action, log)) && next.state == SessionState::Closed && action
            == SessionActionView::Close(Ending::Failed) && log is Some),
        v.state == SessionState::Peeking ==> {
            &&& step_of(v, SessionEventView::PeekFailed, banned) matches Some((next, action, log))
                && next.state == SessionState::Closed && action == SessionActionView::Close(
                Ending::Failed,
            ) && log is None
            &&& step_of(v, SessionEventView::ClientClosed, banned) matches Some(
                (next, action, log),
            ) && next.state == SessionState::Closed && action == SessionActionView::Close(
                Ending::Quiet,
            ) && log is None
            &&& step_of(v, SessionEventView::BudgetExpired(secs), banned) matches Some(
                (next, action, log),
            ) && next.state == SessionState::Closed && action is Fail && log is None
        },
{
}

/// What happens only once, or only after something else, changes nothing at any
/// other time.
pub proof fn untimely_event_is_passed_over(
    v: SessionView,
    event: SessionEventView,
    banned: Set<Seq<char>>,
)
    ensures
        step_of(v, event, banned) is Some <==> {
            ||| v.state == SessionState::WantsDirectSlot && event is DirectSlot
            ||| (v.state == SessionState::Dialing || v.state == SessionState::Redialing) && (event
                is Connected || event is ConnectFailed)
            ||| v.state == SessionState::Peeking && (event is BudgetExpired || event is PeekFailed
                || event is ClientClosed || event is UpstreamGreeted || event is ClientPayload)
        },
{
}

/// No step changes what the client asked for, or who it is.
pub proof fn step_keeps_the_request(
    v: SessionView,
    event: SessionEventView,
    banned: Set<Seq<char>>,
)
    requires
        step_of(v, event, banned) is Some,
    ensures
        step_of(v, event, banned) matches Some((next, _, _)) && next.target == v.target
            && next.client_user == v.client_user && next.max_concurrent_direct
            == v.max_concurrent_direct,
{
}

/// How the log names a client.
pub open spec fn named_client(user: Option<Seq<char>>) -> Seq<char> {
    match user {
        Some(name) => " [client="@ + name + "]"@,
        None => " [client=anon]"@,
    }
}

/// What is logged of a recovery: the dialed text, the address, the client.
pub proof fn recovery_is_logged(
    v: SessionView,
    address: Seq<char>,
    port: Seq<char>,
    payload: Seq<u8>,
    host: Seq<char>,
    reason: Seq<char>,
    banned: Set<Seq<char>>,
)
    requires
        v.state == SessionState::Peeking,
        ipv4_port(v.target) is Some,
        v.target == address + seq![':'] + port,
        !port.contains(':'),
    ensures
        step_of(v, SessionEventView::ClientPayload(payload, Some(host)), banned) matches Some(
            (next, _, log),
        ) && log == Some(
            SessionLogView {
                kind: LogKind::CacheWrite,
                text: "Recovered host "@ + (host + seq![':'] + port) + " from payload for IP "@
                    + v.target + named_client(v.client_user),
            },
        ) && (step_of(next, SessionEventView::ConnectFailed(reason), banned) matches Some(
            (_, _, failed),
        ) && failed == Some(
            SessionLogView {
                kind: LogKind::ConnectionError,
                text: "Recovery upstream failed for "@ + (host + seq![':'] + port) + ": "@ + reason
                    + named_client(v.client_user),
            },
        )),
        step_of(v, SessionEventView::ClientPayload(payload, None), banned) matches Some((_, _, log))
            && log == Some(
            SessionLogView {
                kind: LogKind::Attempt,
                text: "No host recoverable from payload for "@ + v.target + " — using IP"@
                    + named_client(v.client_user),
            },
        ),
{
    recovered_host_keeps_the_port(v, address, port, payload, host, banned);
}

/// What is logged of an upstream that spoke first, and of a direct client
/// without a slot.
pub proof fn other_steps_are_logged(v: SessionView, banner: Seq<u8>, banned: Set<Seq<char>>)
    ensures
        v.state == SessionState::Peeking ==> (step_of(
            v,
            SessionEventView::UpstreamGreeted(banner),
            banned,
        ) matches Some((_, _, log)) && log == Some(
            SessionLogView {
                kind: LogKind::Attempt,
                text: "Client silent; upstream "@ + v.target
                    + " greeted first — forwarding by IP without recovery"@ + named_client(
                    v.client_user,
                ),
            },
        )),
        v.state == SessionState::WantsDirectSlot && v.client_user is Some ==> (step_of(
            v,
            SessionEventView::DirectSlot(false),
            banned,
        ) matches Some((_, _, log)) && log == Some(
            SessionLogView {
                kind: LogKind::ConnectionError,
                text: "Direct cap reached ("@ + number_text(v.max_concurrent_direct as nat, 10)
                    + ") — dropping client="@ + v.client_user->0 + " target="@ + v.target,
            },
        )),
{
}

/// What is said of a client that let its time run out.
pub proof fn expired_client_is_told_of(
    v: SessionView,
    request: ConnectRequestView,
    secs: u64,
    banned: Set<Seq<char>>,
)
    requires
        ipv4_port(request.target) is Some,
        request.client_user is None,
    ensures
        v.state == SessionState::Peeking ==> (step_of(
            v,
            SessionEventView::BudgetExpired(secs),
            banned,
        ) matches Some((_, action, _)) && action == SessionActionView::Fail(
            "client sent no payload within the remaining "@ + number_text(secs as nat, 10)
                + "s of the client-protocol budget ? recovery peek timeout"@ + named_client(
                v.client_user,
            ),
        )),
        begin_of(request, false, true, true).1 == SessionActionView::Fail(
            "client sent no payload within the remaining "@ + number_text(0, 10)
                + "s of the client-protocol budget ? recovery peek timeout"@ + " [client=anon]"@,
        ),
{
}

/// Events, actions and log lines are seen as they are.
pub proof fn steps_are_seen_as_they_are(
    event: SessionEvent,
    action: SessionAction,
    line: SessionLog,
    next: SessionView,
)
    ensures
        match event {
            SessionEvent::DirectSlot(granted) => event@ == SessionEventView::DirectSlot(granted),
            SessionEvent::Connected => event@ == SessionEventView::Connected,
            SessionEvent::ConnectFailed(reason) => event@ == SessionEventView::ConnectFailed(
                reason@,
            ),
            SessionEvent::BudgetExpired(secs) => event@ == SessionEventView::BudgetExpired(secs),
            SessionEvent::PeekFailed => event@ == SessionEventView::PeekFailed,
            SessionEvent::ClientClosed => event@ == SessionEventView::ClientClosed,
            SessionEvent::UpstreamGreeted(banner) => event@ == SessionEventView::UpstreamGreeted(
                banner@,
            ),
            SessionEvent::ClientPayload(payload, Some(host)) => event@
                == SessionEventView::ClientPayload(payload@, Some(host@)),
            SessionEvent::ClientPayload(payload, None) => event@ == SessionEventView::ClientPayload(
                payload@,
                None,
            ),
        },
        match action {
            SessionAction::AcquireDirectSlot => action@ == SessionActionView::AcquireDirectSlot,
            SessionAction::DialDirect => action@ == SessionActionView::DialDirect,
            SessionAction::DialPool(target) => action@ == SessionActionView::DialPool(target@),
            SessionAction::EstablishAndPeek => action@ == SessionActionView::EstablishAndPeek,
            SessionAction::Refuse(response, ending) => action@ == SessionActionView::Refuse(
                response,
                ending,
            ),
            SessionAction::EstablishAndTunnel(bytes) => action@
                == SessionActionView::EstablishAndTunnel(bytes@),
            SessionAction::GreetAndTunnel(bytes) => action@ == SessionActionView::GreetAndTunnel(
                bytes@,
            ),
            SessionAction::Tunnel(bytes) => action@ == SessionActionView::Tunnel(bytes@),
            SessionAction::Fail(reason) => action@ == SessionActionView::Fail(reason@),
            SessionAction::Close(ending) => action@ == SessionActionView::Close(ending),
        },
        step_view(next, Some((action, Some(line)))) == Some(
            (next, action@, Some(SessionLogView { kind: line.kind, text: line.text@ })),
        ),
        step_view(next, Some((action, None))) == Some((next, action@, None::<SessionLogView>)),
        step_view(next, None) is None,
{
}

} // verus!
