//! The fixed responses of the HTTP side.

use vstd::prelude::*;

verus! {

/// A final response to a client: the connection is closed after it.
#[derive(Clone, Copy, Debug, PartialEq, Eq, Structural)]
pub enum Response {
    BadRequest,
    Forbidden,
    ProxyAuthenticationRequired,
    HeaderFieldsTooLarge,
    NotImplemented,
    BadGateway,
    ServiceUnavailable,
}

/// The reply that opens a tunnel.
pub const CONNECTION_ESTABLISHED: &'static str = "HTTP/1.1 200 Connection Established\r\n\r\n";

/// The text of a final response.
pub open spec fn response_text(r: Response) -> Seq<char> {
    match r {
        Response::BadRequest => "HTTP/1.1 400 Bad Request\r\nConnection: close\r\nContent-Length: 0\r\n\r\n"@,
        Response::Forbidden => "HTTP/1.1 403 Forbidden\r\nConnection: close\r\nContent-Length: 0\r\n\r\n"@,
        Response::ProxyAuthenticationRequired => "HTTP/1.1 407 Proxy Authentication Required\r\nProxy-Authenticate: Basic realm=\"resocks5\", charset=\"UTF-8\"\r\nConnection: close\r\nContent-Length: 0\r\n\r\n"@,
        Response::HeaderFieldsTooLarge => "HTTP/1.1 431 Request Header Fields Too Large\r\nConnection: close\r\nContent-Length: 0\r\n\r\n"@,
        Response::NotImplemented => "HTTP/1.1 501 Not Implemented\r\nConnection: close\r\nContent-Length: 0\r\n\r\n"@,
        Response::BadGateway => "HTTP/1.1 502 Bad Gateway\r\nConnection: close\r\nContent-Length: 0\r\n\r\n"@,
        Response::ServiceUnavailable => "HTTP/1.1 503 Service Unavailable\r\nConnection: close\r\nContent-Length: 0\r\n\r\n"@,
    }
}

impl Response {
    /// The text to write to the client.
    pub fn text(&self) -> (r: &'static str)
        ensures
            r@ == response_text(*self),
    {
        match self {
            Response::BadRequest => "HTTP/1.1 400 Bad Request\r\nConnection: close\r\nContent-Length: 0\r\n\r\n",
            Response::Forbidden => "HTTP/1.1 403 Forbidden\r\nConnection: close\r\nContent-Length: 0\r\n\r\n",
            Response::ProxyAuthenticationRequired => "HTTP/1.1 407 Proxy Authentication Required\r\nProxy-Authenticate: Basic realm=\"resocks5\", charset=\"UTF-8\"\r\nConnection: close\r\nContent-Length: 0\r\n\r\n",
            Response::HeaderFieldsTooLarge => "HTTP/1.1 431 Request Header Fields Too Large\r\nConnection: close\r\nContent-Length: 0\r\n\r\n",
            Response::NotImplemented => "HTTP/1.1 501 Not Implemented\r\nConnection: close\r\nContent-Length: 0\r\n\r\n",
            Response::BadGateway => "HTTP/1.1 502 Bad Gateway\r\nConnection: close\r\nContent-Length: 0\r\n\r\n",
            Response::ServiceUnavailable => "HTTP/1.1 503 Service Unavailable\r\nConnection: close\r\nContent-Length: 0\r\n\r\n",
        }
    }
}

/// Every final response closes the connection and has an empty body.
pub proof fn every_response_closes(r: Response)
    ensures
        exists|start: Seq<char>|
            response_text(r) == #[trigger] (start
                + "\r\nConnection: close\r\nContent-Length: 0\r\n\r\n"@),
{
    reveal_strlit("\r\nConnection: close\r\nContent-Length: 0\r\n\r\n");
    let end = "\r\nConnection: close\r\nContent-Length: 0\r\n\r\n"@;
    reveal_strlit("HTTP/1.1 400 Bad Request\r\nConnection: close\r\nContent-Length: 0\r\n\r\n");
    reveal_strlit("HTTP/1.1 403 Forbidden\r\nConnection: close\r\nContent-Length: 0\r\n\r\n");
    reveal_strlit(
        "HTTP/1.1 407 Proxy Authentication Required\r\nProxy-Authenticate: Basic realm=\"resocks5\", charset=\"UTF-8\"\r\nConnection: close\r\nContent-Length: 0\r\n\r\n",
    );
    reveal_strlit(
        "HTTP/1.1 431 Request Header Fields Too Large\r\nConnection: close\r\nContent-Length: 0\r\n\r\n",
    );
    reveal_strlit("HTTP/1.1 501 Not Implemented\r\nConnection: close\r\nContent-Length: 0\r\n\r\n");
    reveal_strlit("HTTP/1.1 502 Bad Gateway\r\nConnection: close\r\nContent-Length: 0\r\n\r\n");
    reveal_strlit(
        "HTTP/1.1 503 Service Unavailable\r\nConnection: close\r\nContent-Length: 0\r\n\r\n",
    );
    let t = response_text(r);
    assert(t =~= t.take(t.len() - end.len()) + end);
}

} // verus!
