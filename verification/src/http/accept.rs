//! The CONNECT handshake against the authentication state.

use vstd::prelude::*;

use crate::auth::state::{account, is_login, AuthState, AuthView, ClaimPersist};
use crate::http::connect::{
    error_response, finish_http_connect, handshake_of, parse_http_connect, request_of,
    request_result, Admission, AdmissionView, ConnectError, ConnectErrorView, ConnectRequest,
    ConnectRequestView,
};
use crate::http::response::Response;

verus! {

/// Whether `r` and `w` are the answer to a request and the authentication state
/// after it, in state `v`: credentials are logged in with, and nothing else
/// touches the state.
pub open spec fn is_acceptance(
    v: AuthView,
    head: Seq<u8>,
    authority_ok: bool,
    pipelined: Seq<u8>,
    persist: ClaimPersist,
    r: Result<ConnectRequestView, ConnectErrorView>,
    w: AuthView,
) -> bool {
    match handshake_of(head, authority_ok, v.users.len() > 0, v.allow_anonymous) {
        Err(e) => r == Err::<ConnectRequestView, ConnectErrorView>(e) && w == v,
        Ok(h) => match h.admission {
            AdmissionView::Anonymous => r == request_of(h, pipelined, false) && w == v,
            AdmissionView::Verify(c) => exists|ok: bool| #[trigger]
                is_login(v, c.user, c.password, persist, ok, w) && r == request_of(h, pipelined, ok),
        },
    }
}

/// Answers the header block of a CONNECT request. `authority_ok` says whether
/// the target is a `host:port` authority, `persist` what becomes of a claim if
/// this login is the first one of its account.
pub fn accept_connect(
    auth: &mut AuthState,
    head: &[u8],
    authority_ok: bool,
    pipelined: Vec<u8>,
    persist: ClaimPersist,
) -> (r: Result<ConnectRequest, ConnectError>)
    requires
        old(auth).wf(),
    ensures
        final(auth).wf(),
        is_acceptance(
            old(auth)@,
            head@,
            authority_ok,
            pipelined@,
            persist,
            request_result(r),
            final(auth)@,
        ),
{
    let has_users = !auth.is_empty();
    let allow_anonymous = auth.allows_anonymous();
    let handshake = match parse_http_connect(head, authority_ok, has_users, allow_anonymous) {
        Ok(handshake) => handshake,
        Err(e) => {
            return Err(e);
        },
    };
    let ghost v = auth@;
    let verified = match &handshake.admission {
        Admission::Anonymous => false,
        Admission::Verify(c) => {
            let ok = auth.verify(&c.user, &c.password, persist);
            assert(is_login(v, c@.user, c@.password, persist, ok, auth@));
            ok
        },
    };
    finish_http_connect(handshake, pipelined, verified)
}

/// An accepted client is anonymous, which the server allows and which changes
/// nothing, or an enabled user, whose login is remembered from then on.
pub proof fn accepted_client_is_known_or_anonymous(
    v: AuthView,
    head: Seq<u8>,
    authority_ok: bool,
    pipelined: Seq<u8>,
    persist: ClaimPersist,
    request: ConnectRequestView,
    w: AuthView,
)
    requires
        is_acceptance(
            v,
            head,
            authority_ok,
            pipelined,
            persist,
            Ok::<ConnectRequestView, ConnectErrorView>(request),
            w,
        ),
    ensures
        match request.client_user {
            Some(name) => {
                &&& account(v, name) matches Some(u) && u.is_enabled
                &&& w.cache.contains_key(name)
            },
            None => v.allow_anonymous && w == v,
        },
{
}

/// A refused client gets a status line that says so, and no login of it is
/// remembered.
pub proof fn refused_client_is_told_and_forgotten(
    v: AuthView,
    head: Seq<u8>,
    authority_ok: bool,
    pipelined: Seq<u8>,
    persist: ClaimPersist,
    e: ConnectErrorView,
    w: AuthView,
)
    requires
        is_acceptance(
            v,
            head,
            authority_ok,
            pipelined,
            persist,
            Err::<ConnectRequestView, ConnectErrorView>(e),
            w,
        ),
    ensures
        error_response(e) matches Some(answer) && (answer == Response::BadRequest || answer
            == Response::NotImplemented || answer == Response::ProxyAuthenticationRequired),
        w.cache == v.cache,
{
}

} // verus!
