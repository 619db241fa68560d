//! The HTTP CONNECT handshake: request line, target, credentials, policy.

use base64::engine::general_purpose;
use base64::Engine as _;
use vstd::prelude::*;
use vstd::slice::slice_subrange;
use vstd::utf8::{decode_utf8, valid_utf8};

use crate::http::byte_lines::{lines_of, ByteLines};
use crate::http::response::Response;
use crate::text::{
    ascii_lower, begins_with, chars_of, debug_quoted, debug_text, elem_from, eq_ignore_ascii_case,
    first_of, join, same_but_ascii_case, same_text, split_first, split_once, strip, strip_end,
    strip_start, text_from_utf8, trim, trimmed,
};

verus! {

/// Why a CONNECT handshake ended without a tunnel.
#[derive(Debug)]
pub enum ConnectError {
    ClosedEarly,
    HeadersTooLarge,
    RequestLineNotUtf8,
    MalformedRequestLine(String),
    MethodNotSupported(String),
    TargetHasControlBytes(String),
    TargetNotAuthority(String),
    CredentialsFieldNotUtf8,
    UnsupportedScheme,
    Base64Invalid,
    CredentialsNotUtf8,
    MissingColon,
    NoUsersConfigured,
    AuthFailed(String),
    AnonymousNotAllowed,
}

/// A [`ConnectError`] over the views of its texts.
pub enum ConnectErrorView {
    ClosedEarly,
    HeadersTooLarge,
    RequestLineNotUtf8,
    MalformedRequestLine(Seq<char>),
    MethodNotSupported(Seq<char>),
    TargetHasControlBytes(Seq<char>),
    TargetNotAuthority(Seq<char>),
    CredentialsFieldNotUtf8,
    UnsupportedScheme,
    Base64Invalid,
    CredentialsNotUtf8,
    MissingColon,
    NoUsersConfigured,
    AuthFailed(Seq<char>),
    AnonymousNotAllowed,
}

impl View for ConnectError {
    type V = ConnectErrorView;

    open spec fn view(&self) -> ConnectErrorView {
        match self {
            ConnectError::ClosedEarly => ConnectErrorView::ClosedEarly,
            ConnectError::HeadersTooLarge => ConnectErrorView::HeadersTooLarge,
            ConnectError::RequestLineNotUtf8 => ConnectErrorView::RequestLineNotUtf8,
            ConnectError::MalformedRequestLine(s) => ConnectErrorView::MalformedRequestLine(s@),
            ConnectError::MethodNotSupported(s) => ConnectErrorView::MethodNotSupported(s@),
            ConnectError::TargetHasControlBytes(s) => ConnectErrorView::TargetHasControlBytes(s@),
            ConnectError::TargetNotAuthority(s) => ConnectErrorView::TargetNotAuthority(s@),
            ConnectError::CredentialsFieldNotUtf8 => ConnectErrorView::CredentialsFieldNotUtf8,
            ConnectError::UnsupportedScheme => ConnectErrorView::UnsupportedScheme,
            ConnectError::Base64Invalid => ConnectErrorView::Base64Invalid,
            ConnectError::CredentialsNotUtf8 => ConnectErrorView::CredentialsNotUtf8,
            ConnectError::MissingColon => ConnectErrorView::MissingColon,
            ConnectError::NoUsersConfigured => ConnectErrorView::NoUsersConfigured,
            ConnectError::AuthFailed(s) => ConnectErrorView::AuthFailed(s@),
            ConnectError::AnonymousNotAllowed => ConnectErrorView::AnonymousNotAllowed,
        }
    }
}

/// The response that a client gets for an error. A client that is gone gets
/// none.
pub open spec fn error_response(e: ConnectErrorView) -> Option<Response> {
    match e {
        ConnectErrorView::ClosedEarly => None,
        ConnectErrorView::HeadersTooLarge => Some(Response::HeaderFieldsTooLarge),
        ConnectErrorView::RequestLineNotUtf8 => Some(Response::BadRequest),
        ConnectErrorView::MalformedRequestLine(_) => Some(Response::BadRequest),
        ConnectErrorView::MethodNotSupported(_) => Some(Response::NotImplemented),
        ConnectErrorView::TargetHasControlBytes(_) => Some(Response::BadRequest),
        ConnectErrorView::TargetNotAuthority(_) => Some(Response::BadRequest),
        _ => Some(Response::ProxyAuthenticationRequired),
    }
}

/// The text that describes an error in the log.
pub open spec fn error_text(e: ConnectErrorView) -> Seq<char> {
    match e {
        ConnectErrorView::ClosedEarly => "client closed before sending HTTP request line"@,
        ConnectErrorView::HeadersTooLarge => "HTTP headers exceeded 16384 bytes"@,
        ConnectErrorView::RequestLineNotUtf8 => "non-UTF-8 bytes in HTTP request line"@,
        ConnectErrorView::MalformedRequestLine(s) => "malformed HTTP request line: "@ + debug_text(
            s,
        ),
        ConnectErrorView::MethodNotSupported(s) => "only CONNECT is supported, client sent "@
            + debug_text(s),
        ConnectErrorView::TargetHasControlBytes(s) => "CONNECT target contains control or whitespace bytes — "@
            + debug_text(s),
        ConnectErrorView::TargetNotAuthority(s) => "CONNECT target is not a valid host:port authority — "@
            + debug_text(s),
        ConnectErrorView::CredentialsFieldNotUtf8 => "Proxy-Authorization header is not valid UTF-8"@,
        ConnectErrorView::UnsupportedScheme => "unsupported Proxy-Authorization scheme"@,
        ConnectErrorView::Base64Invalid => "Proxy-Authorization base64 decode failed"@,
        ConnectErrorView::CredentialsNotUtf8 => "Proxy-Authorization not valid UTF-8"@,
        ConnectErrorView::MissingColon => "Proxy-Authorization missing ':'"@,
        ConnectErrorView::NoUsersConfigured => "client sent Proxy-Authorization but server has no users configured"@,
        ConnectErrorView::AuthFailed(s) => "HTTP auth failed for user "@ + debug_text(s),
        ConnectErrorView::AnonymousNotAllowed => "anonymous HTTP CONNECT not allowed (allow_anonymous=false)"@,
    }
}

impl ConnectError {
    /// The response to write before the connection is dropped.
    pub fn response(&self) -> (r: Option<Response>)
        ensures
            r == error_response(self@),
    {
        match self {
            ConnectError::ClosedEarly => None,
            ConnectError::HeadersTooLarge => Some(Response::HeaderFieldsTooLarge),
            ConnectError::RequestLineNotUtf8 => Some(Response::BadRequest),
            ConnectError::MalformedRequestLine(_) => Some(Response::BadRequest),
            ConnectError::MethodNotSupported(_) => Some(Response::NotImplemented),
            ConnectError::TargetHasControlBytes(_) => Some(Response::BadRequest),
            ConnectError::TargetNotAuthority(_) => Some(Response::BadRequest),
            _ => Some(Response::ProxyAuthenticationRequired),
        }
    }

    /// The text that describes the error.
    pub fn message(&self) -> (r: String)
        ensures
            r@ == error_text(self@),
    {
        match self {
            ConnectError::ClosedEarly => "client closed before sending HTTP request line".to_owned(),
            ConnectError::HeadersTooLarge => "HTTP headers exceeded 16384 bytes".to_owned(),
            ConnectError::RequestLineNotUtf8 => "non-UTF-8 bytes in HTTP request line".to_owned(),
            ConnectError::MalformedRequestLine(s) => join(
                "malformed HTTP request line: ",
                &debug_quoted(s),
            ),
            ConnectError::MethodNotSupported(s) => join(
                "only CONNECT is supported, client sent ",
                &debug_quoted(s),
            ),
            ConnectError::TargetHasControlBytes(s) => join(
                "CONNECT target contains control or whitespace bytes — ",
                &debug_quoted(s),
            ),
            ConnectError::TargetNotAuthority(s) => join(
                "CONNECT target is not a valid host:port authority — ",
                &debug_quoted(s),
            ),
            ConnectError::CredentialsFieldNotUtf8 => "Proxy-Authorization header is not valid UTF-8".to_owned(),
            ConnectError::UnsupportedScheme => "unsupported Proxy-Authorization scheme".to_owned(),
            ConnectError::Base64Invalid => "Proxy-Authorization base64 decode failed".to_owned(),
            ConnectError::CredentialsNotUtf8 => "Proxy-Authorization not valid UTF-8".to_owned(),
            ConnectError::MissingColon => "Proxy-Authorization missing ':'".to_owned(),
            ConnectError::NoUsersConfigured => "client sent Proxy-Authorization but server has no users configured".to_owned(),
            ConnectError::AuthFailed(s) => join("HTTP auth failed for user ", &debug_quoted(s)),
            ConnectError::AnonymousNotAllowed => "anonymous HTTP CONNECT not allowed (allow_anonymous=false)".to_owned(),
        }
    }
}

/// The text before the first `sep` and the text after it; a text without one
/// has nothing after it.
pub open spec fn cut(s: Seq<char>, sep: char) -> (Seq<char>, Seq<char>) {
    match split_first(s, sep) {
        Some(sides) => sides,
        None => (s, seq![]),
    }
}

/// Cuts at the first `sep`.
fn cut_at<'a>(s: &'a str, sep: char) -> (r: (&'a str, &'a str))
    ensures
        (r.0@, r.1@) == cut(s@, sep),
{
    match split_once(s, sep) {
        Some(sides) => sides,
        None => {
            proof {
                reveal_strlit("");
                assert(""@ =~= seq![]);
            }
            (s, "")
        },
    }
}

/// The request line of a header block, where it is text. A block without any
/// line has an empty one.
pub open spec fn request_line(head: Seq<u8>) -> Option<Seq<char>> {
    if lines_of(head).len() == 0 {
        Some(seq![])
    } else if valid_utf8(lines_of(head)[0]) {
        Some(decode_utf8(lines_of(head)[0]))
    } else {
        None
    }
}

/// An ASCII control character or ASCII white space.
pub open spec fn is_control_or_space(c: char) -> bool {
    c as u32 <= 0x20 || c as u32 == 0x7f
}

/// The target of a header block whose request line is `CONNECT target
/// HTTP/...`, or what is wrong with the line.
pub open spec fn target_of(head: Seq<u8>) -> Result<Seq<char>, ConnectErrorView> {
    match request_line(head) {
        None => Err(ConnectErrorView::RequestLineNotUtf8),
        Some(line) => {
            let (method, rest) = cut(line, ' ');
            let (target, version) = cut(rest, ' ');
            if method.len() == 0 || target.len() == 0 || !"HTTP/"@.is_prefix_of(version) {
                Err(ConnectErrorView::MalformedRequestLine(line))
            } else if method != "CONNECT"@ {
                Err(ConnectErrorView::MethodNotSupported(method))
            } else if exists|i: int| 0 <= i < target.len() && is_control_or_space(target[i]) {
                Err(ConnectErrorView::TargetHasControlBytes(target))
            } else {
                Ok(target)
            }
        },
    }
}

/// A result over the views of its sides.
pub open spec fn text_result(r: Result<String, ConnectError>) -> Result<
    Seq<char>,
    ConnectErrorView,
> {
    match r {
        Ok(s) => Ok(s@),
        Err(e) => Err(e@),
    }
}

/// Whether a text holds an ASCII control character or ASCII white space.
fn has_control_or_space(s: &str) -> (r: bool)
    ensures
        r == exists|i: int| 0 <= i < s@.len() && is_control_or_space(s@[i]),
{
    let v = chars_of(s);
    let mut i: usize = 0;
    while i < v.len()
        invariant
            i <= v@.len(),
            v@ == s@,
            forall|j: int| 0 <= j < i ==> !is_control_or_space(s@[j]),
        decreases v@.len() - i,
    {
        let n: u32 = v[i] as u32;
        if n <= 0x20 || n == 0x7f {
            assert(is_control_or_space(s@[i as int]));
            return true;
        }
        i += 1;
    }
    false
}

/// Checks the request line of a header block and takes the CONNECT target
/// from it. That the target is a `host:port` authority is checked apart.
pub fn connect_target(head: &[u8]) -> (r: Result<String, ConnectError>)
    ensures
        text_result(r) == target_of(head@),
{
    let mut lines = ByteLines { rest: head };
    let line: &str = match lines.next() {
        None => {
            proof {
                reveal_strlit("");
                assert(""@ =~= seq![]);
            }
            ""
        },
        Some(bytes) => {
            assert(lines_of(head@)[0] == bytes@);
            match text_from_utf8(bytes) {
                Some(s) => s,
                None => {
                    return Err(ConnectError::RequestLineNotUtf8);
                },
            }
        },
    };
    assert(request_line(head@) == Some(line@));
    let (method, rest) = cut_at(line, ' ');
    let (target, version) = cut_at(rest, ' ');
    if method.is_empty() || target.is_empty() || !begins_with(version, "HTTP/") {
        return Err(ConnectError::MalformedRequestLine(line.to_owned()));
    }
    if !same_text(method, "CONNECT") {
        return Err(ConnectError::MethodNotSupported(method.to_owned()));
    }
    if has_control_or_space(target) {
        return Err(ConnectError::TargetHasControlBytes(target.to_owned()));
    }
    Ok(target.to_owned())
}

/// ASCII white space: space, tab, line feed, form feed, carriage return.
pub open spec fn is_ascii_space(b: u8) -> bool {
    b == 0x20 || b == 0x09 || b == 0x0a || b == 0x0c || b == 0x0d
}

/// Bytes without leading and trailing ASCII white space.
pub open spec fn trimmed_bytes(s: Seq<u8>) -> Seq<u8> {
    strip(s, |b: u8| is_ascii_space(b))
}

/// Whether a byte is ASCII white space.
fn ascii_space(b: u8) -> (r: bool)
    ensures
        r == is_ascii_space(b),
{
    b == 0x20 || b == 0x09 || b == 0x0a || b == 0x0c || b == 0x0d
}

/// Removes leading and trailing ASCII white space.
fn trim_ascii<'a>(s: &'a [u8]) -> (r: &'a [u8])
    ensures
        r@ == trimmed_bytes(s@),
{
    let ghost p = |b: u8| is_ascii_space(b);
    let mut i: usize = 0;
    assert(s@.skip(0) =~= s@);
    while i < s.len() && ascii_space(s[i])
        invariant
            i <= s@.len(),
            p == (|b: u8| is_ascii_space(b)),
            strip_start(s@, p) == strip_start(s@.skip(i as int), p),
        decreases s@.len() - i,
    {
        assert(s@.skip(i as int).skip(1) =~= s@.skip(i + 1));
        i += 1;
    }
    let ghost left = s@.skip(i as int);
    assert(strip_start(s@, p) == left);
    let mut j: usize = s.len();
    assert(s@.subrange(i as int, j as int) =~= left);
    while j > i && ascii_space(s[j - 1])
        invariant
            i <= j <= s@.len(),
            p == (|b: u8| is_ascii_space(b)),
            strip_end(left, p) == strip_end(s@.subrange(i as int, j as int), p),
        decreases j,
    {
        assert(s@.subrange(i as int, j as int).drop_last() =~= s@.subrange(i as int, j - 1));
        j -= 1;
    }
    slice_subrange(s, i, j)
}

/// Whether the bytes spell `name` but for the case of ASCII letters.
pub open spec fn spells(bytes: Seq<u8>, name: Seq<char>) -> bool {
    bytes.len() == name.len() && forall|i: int|
        0 <= i < bytes.len() ==> ascii_lower(#[trigger] bytes[i] as char) == ascii_lower(name[i])
}

/// Whether the bytes spell a lower-case ASCII name but for case.
fn spells_name(bytes: &[u8], name: &str) -> (r: bool)
    requires
        forall|i: int| 0 <= i < name@.len() ==> ascii_lower(#[trigger] name@[i]) == name@[i],
    ensures
        r == spells(bytes@, name@),
{
    let w = chars_of(name);
    if bytes.len() != w.len() {
        return false;
    }
    let mut i: usize = 0;
    while i < w.len()
        invariant
            i <= w@.len() == bytes@.len(),
            w@ == name@,
            forall|j: int| 0 <= j < name@.len() ==> ascii_lower(#[trigger] name@[j]) == name@[j],
            forall|j: int|
                0 <= j < i ==> ascii_lower(#[trigger] bytes@[j] as char) == ascii_lower(name@[j]),
        decreases w@.len() - i,
    {
        let b: u8 = bytes[i];
        let low: u8 = if 0x41 <= b && b <= 0x5a {
            b + 32
        } else {
            b
        };
        assert(ascii_lower(bytes@[i as int] as char) as u32 == low as u32);
        assert(ascii_lower(name@[i as int]) == name@[i as int]);
        if low as u32 != w[i] as u32 {
            return false;
        }
        i += 1;
    }
    true
}

/// The value of a header line, if the line is a `Proxy-Authorization` field.
pub open spec fn credentials_field(line: Seq<u8>) -> Option<Seq<u8>> {
    match first_of(line, 0x3au8) {
        Some(colon) => if spells(trimmed_bytes(line.take(colon)), "proxy-authorization"@) {
            Some(trimmed_bytes(line.skip(colon + 1)))
        } else {
            None
        },
        None => None,
    }
}

/// The value of the first `Proxy-Authorization` field among the lines.
pub open spec fn first_credentials_field(lines: Seq<Seq<u8>>) -> Option<Seq<u8>>
    decreases lines.len(),
{
    if lines.len() == 0 {
        None
    } else if credentials_field(lines[0]) is Some {
        credentials_field(lines[0])
    } else {
        first_credentials_field(lines.skip(1))
    }
}

/// The lines of a header block below the request line.
pub open spec fn field_lines(head: Seq<u8>) -> Seq<Seq<u8>> {
    if lines_of(head).len() == 0 {
        seq![]
    } else {
        lines_of(head).skip(1)
    }
}

/// The value of a header line, if the line is a `Proxy-Authorization` field.
fn credentials_in_line<'a>(line: &'a [u8]) -> (r: Option<&'a [u8]>)
    ensures
        match r {
            Some(value) => credentials_field(line@) == Some(value@),
            None => credentials_field(line@) is None,
        },
{
    let mut colon: usize = 0;
    while colon < line.len()
        invariant
            colon <= line@.len(),
            first_of(line@, 0x3au8) == elem_from(line@, 0x3au8, colon as int),
        decreases line@.len() - colon,
    {
        if line[colon] == 0x3a {
            let name = slice_subrange(line, 0, colon);
            let value = slice_subrange(line, colon + 1, line.len());
            assert(name@ == line@.take(colon as int));
            assert(value@ == line@.skip(colon + 1));
            proof {
                reveal_strlit("proxy-authorization");
            }
            if spells_name(trim_ascii(name), "proxy-authorization") {
                return Some(trim_ascii(value));
            }
            return None;
        }
        colon += 1;
    }
    None
}

/// The value of the first `Proxy-Authorization` field of a header block.
fn find_credentials_field<'a>(head: &'a [u8]) -> (r: Option<&'a [u8]>)
    ensures
        match r {
            Some(value) => first_credentials_field(field_lines(head@)) == Some(value@),
            None => first_credentials_field(field_lines(head@)) is None,
        },
{
    let mut lines = ByteLines { rest: head };
    let first = lines.next();
    if first.is_none() {
        return None;
    }
    assert(lines_of(head@).skip(1) =~= lines_of(lines.rest@));
    loop
        invariant
            first_credentials_field(field_lines(head@)) == first_credentials_field(
                lines_of(lines.rest@),
            ),
        decreases lines.rest@.len(),
    {
        let ghost before = lines_of(lines.rest@);
        match lines.next() {
            None => {
                return None;
            },
            Some(line) => {
                assert(before[0] == line@);
                assert(before.skip(1) =~= lines_of(lines.rest@));
                match credentials_in_line(line) {
                    Some(value) => {
                        return Some(value);
                    },
                    None => {},
                }
            },
        }
    }
}

/// The token of a `Basic` credentials field.
pub open spec fn basic_token(value: Seq<char>) -> Option<Seq<char>> {
    match split_first(value, ' ') {
        Some((scheme, rest)) => if same_but_ascii_case(scheme, "Basic"@) {
            Some(trimmed(rest))
        } else {
            None
        },
        None => None,
    }
}

/// Takes the token from a `Basic` credentials field.
pub fn split_basic_token(value: &str) -> (r: Option<&str>)
    ensures
        match r {
            Some(token) => basic_token(value@) == Some(token@),
            None => basic_token(value@) is None,
        },
{
    match split_once(value, ' ') {
        Some((scheme, rest)) => {
            if eq_ignore_ascii_case(scheme, "Basic") {
                Some(trim(rest))
            } else {
                None
            }
        },
        None => None,
    }
}

/// What the standard base64 alphabet with padding decodes a text to; `None`
/// where the text is no canonical encoding.
pub uninterp spec fn base64_standard(text: Seq<char>) -> Option<Seq<u8>>;

/// Calls `decode` of `base64`'s `general_purpose::STANDARD` engine. The
/// decoder is only named: that it accepts exactly the padded, canonical
/// encodings takes the whole of RFC 4648 to say.
#[verifier::external_body]
fn base64_decode(text: &str) -> (r: Option<Vec<u8>>)
    ensures
        match r {
            Some(bytes) => base64_standard(text@) == Some(bytes@),
            None => base64_standard(text@) is None,
        },
{
    general_purpose::STANDARD.decode(text).ok()
}

/// A user name and a password as a client sent them. There is no `Debug`, so
/// that no password is ever rendered.
pub struct Credentials {
    pub user: String,
    pub password: String,
}

/// [`Credentials`] over views.
pub struct CredentialsView {
    pub user: Seq<char>,
    pub password: Seq<char>,
}

impl View for Credentials {
    type V = CredentialsView;

    open spec fn view(&self) -> CredentialsView {
        CredentialsView { user: self.user@, password: self.password@ }
    }
}

/// What the decoded bytes of a `Basic` token say: UTF-8 text, split at its
/// first colon.
pub open spec fn credentials_of_bytes(decoded: Option<Seq<u8>>) -> Result<
    CredentialsView,
    ConnectErrorView,
> {
    match decoded {
        None => Err(ConnectErrorView::Base64Invalid),
        Some(bytes) => if !valid_utf8(bytes) {
            Err(ConnectErrorView::CredentialsNotUtf8)
        } else {
            match split_first(decode_utf8(bytes), ':') {
                Some((user, password)) => Ok(CredentialsView { user, password }),
                None => Err(ConnectErrorView::MissingColon),
            }
        },
    }
}

/// Reads the decoded bytes of a `Basic` token.
pub fn read_credentials(decoded: Option<Vec<u8>>) -> (r: Result<Credentials, ConnectError>)
    ensures
        match r {
            Ok(c) => credentials_of_bytes(option_bytes(decoded)) == Ok::<
                CredentialsView,
                ConnectErrorView,
            >(c@),
            Err(e) => credentials_of_bytes(option_bytes(decoded)) == Err::<
                CredentialsView,
                ConnectErrorView,
            >(e@),
        },
{
    match decoded {
        None => Err(ConnectError::Base64Invalid),
        Some(bytes) => match text_from_utf8(bytes.as_slice()) {
            None => Err(ConnectError::CredentialsNotUtf8),
            Some(s) => match split_once(s, ':') {
                Some((user, password)) => Ok(
                    Credentials { user: user.to_owned(), password: password.to_owned() },
                ),
                None => Err(ConnectError::MissingColon),
            },
        },
    }
}

/// An optional byte vector as its optional view.
pub open spec fn option_bytes(b: Option<Vec<u8>>) -> Option<Seq<u8>> {
    match b {
        Some(v) => Some(v@),
        None => None,
    }
}

/// The credentials of a header block: `None` without a `Proxy-Authorization`
/// field, else what its first such field says.
pub open spec fn credentials_of(head: Seq<u8>) -> Result<
    Option<CredentialsView>,
    ConnectErrorView,
> {
    match first_credentials_field(field_lines(head)) {
        None => Ok(None),
        Some(value) => if !valid_utf8(value) {
            Err(ConnectErrorView::CredentialsFieldNotUtf8)
        } else {
            match basic_token(decode_utf8(value)) {
                None => Err(ConnectErrorView::UnsupportedScheme),
                Some(token) => match credentials_of_bytes(base64_standard(token)) {
                    Ok(c) => Ok(Some(c)),
                    Err(e) => Err(e),
                },
            }
        },
    }
}

/// Credentials as parsed, over views.
pub open spec fn credentials_result(r: Result<Option<Credentials>, ConnectError>) -> Result<
    Option<CredentialsView>,
    ConnectErrorView,
> {
    match r {
        Ok(Some(c)) => Ok(Some(c@)),
        Ok(None) => Ok(None),
        Err(e) => Err(e@),
    }
}

/// Reads the `Proxy-Authorization` field of a header block. Opaque bytes in
/// any other field do not matter.
pub fn proxy_credentials(head: &[u8]) -> (r: Result<Option<Credentials>, ConnectError>)
    ensures
        credentials_result(r) == credentials_of(head@),
{
    match find_credentials_field(head) {
        None => Ok(None),
        Some(value) => match text_from_utf8(value) {
            None => Err(ConnectError::CredentialsFieldNotUtf8),
            Some(s) => match split_basic_token(s) {
                None => Err(ConnectError::UnsupportedScheme),
                Some(token) => {
                    let decoded = base64_decode(token);
                    assert(option_bytes(decoded) == base64_standard(token@));
                    match read_credentials(decoded) {
                        Ok(c) => Ok(Some(c)),
                        Err(e) => Err(e),
                    }
                },
            },
        },
    }
}

/// What is left to do for a well-formed request.
pub enum Admission {
    /// Accept the client as anonymous.
    Anonymous,
    /// Accept the client if these credentials verify.
    Verify(Credentials),
}

/// [`Admission`] over views.
pub enum AdmissionView {
    Anonymous,
    Verify(CredentialsView),
}

impl View for Admission {
    type V = AdmissionView;

    open spec fn view(&self) -> AdmissionView {
        match self {
            Admission::Anonymous => AdmissionView::Anonymous,
            Admission::Verify(c) => AdmissionView::Verify(c@),
        }
    }
}

/// The access policy, the same as on the SOCKS5 side: credentials are checked
/// wherever there are users, a client without any needs `allow_anonymous`,
/// and credentials for a server without users are refused.
pub open spec fn admission_of(
    credentials: Option<CredentialsView>,
    has_users: bool,
    allow_anonymous: bool,
) -> Result<AdmissionView, ConnectErrorView> {
    match credentials {
        Some(c) => if has_users {
            Ok(AdmissionView::Verify(c))
        } else {
            Err(ConnectErrorView::NoUsersConfigured)
        },
        None => if allow_anonymous {
            Ok(AdmissionView::Anonymous)
        } else {
            Err(ConnectErrorView::AnonymousNotAllowed)
        },
    }
}

/// A CONNECT request that is well-formed and not refused by policy.
pub struct Handshake {
    pub target: String,
    pub admission: Admission,
}

/// [`Handshake`] over views.
pub struct HandshakeView {
    pub target: Seq<char>,
    pub admission: AdmissionView,
}

impl View for Handshake {
    type V = HandshakeView;

    open spec fn view(&self) -> HandshakeView {
        HandshakeView { target: self.target@, admission: self.admission@ }
    }
}

/// What a header block asks for, in the order in which it is checked: the
/// request line, the authority, the credentials, the policy.
pub open spec fn handshake_of(
    head: Seq<u8>,
    authority_ok: bool,
    has_users: bool,
    allow_anonymous: bool,
) -> Result<HandshakeView, ConnectErrorView> {
    match target_of(head) {
        Err(e) => Err(e),
        Ok(target) => if !authority_ok {
            Err(ConnectErrorView::TargetNotAuthority(target))
        } else {
            match credentials_of(head) {
                Err(e) => Err(e),
                Ok(credentials) => match admission_of(credentials, has_users, allow_anonymous) {
                    Err(e) => Err(e),
                    Ok(admission) => Ok(HandshakeView { target, admission }),
                },
            }
        },
    }
}

/// A handshake as parsed, over views.
pub open spec fn handshake_result(r: Result<Handshake, ConnectError>) -> Result<
    HandshakeView,
    ConnectErrorView,
> {
    match r {
        Ok(h) => Ok(h@),
        Err(e) => Err(e@),
    }
}

/// Reads the header block of a CONNECT request. `authority_ok` says whether
/// the target, as [`connect_target`] gives it, is a `host:port` authority: a
/// bad one is a client error and must cost a `400` before any dial.
pub fn parse_http_connect(
    head: &[u8],
    authority_ok: bool,
    has_users: bool,
    allow_anonymous: bool,
) -> (r: Result<Handshake, ConnectError>)
    ensures
        handshake_result(r) == handshake_of(head@, authority_ok, has_users, allow_anonymous),
{
    let target = match connect_target(head) {
        Ok(target) => target,
        Err(e) => {
            return Err(e);
        },
    };
    if !authority_ok {
        return Err(ConnectError::TargetNotAuthority(target));
    }
    let credentials = match proxy_credentials(head) {
        Ok(credentials) => credentials,
        Err(e) => {
            return Err(e);
        },
    };
    match credentials {
        Some(c) => {
            if !has_users {
                return Err(ConnectError::NoUsersConfigured);
            }
            Ok(Handshake { target, admission: Admission::Verify(c) })
        },
        None => {
            if !allow_anonymous {
                return Err(ConnectError::AnonymousNotAllowed);
            }
            Ok(Handshake { target, admission: Admission::Anonymous })
        },
    }
}

/// An accepted CONNECT request.
#[derive(Debug)]
pub struct ConnectRequest {
    pub target: String,
    /// The bytes that the client pipelined past the header block, typically a
    /// fast-open TLS ClientHello.
    pub pipelined: Vec<u8>,
    /// The authenticated user; `None` for an anonymous client.
    pub client_user: Option<String>,
}

/// [`ConnectRequest`] over views.
pub struct ConnectRequestView {
    pub target: Seq<char>,
    pub pipelined: Seq<u8>,
    pub client_user: Option<Seq<char>>,
}

impl View for ConnectRequest {
    type V = ConnectRequestView;

    open spec fn view(&self) -> ConnectRequestView {
        ConnectRequestView {
            target: self.target@,
            pipelined: self.pipelined@,
            client_user: match self.client_user {
                Some(u) => Some(u@),
                None => None,
            },
        }
    }
}

/// The end of a handshake, once the credentials, if any, were verified or not.
pub open spec fn request_of(
    handshake: HandshakeView,
    pipelined: Seq<u8>,
    verified: bool,
) -> Result<ConnectRequestView, ConnectErrorView> {
    match handshake.admission {
        AdmissionView::Anonymous => Ok(
            ConnectRequestView { target: handshake.target, pipelined, client_user: None },
        ),
        AdmissionView::Verify(c) => if verified {
            Ok(
                ConnectRequestView {
                    target: handshake.target,
                    pipelined,
                    client_user: Some(c.user),
                },
            )
        } else {
            Err(ConnectErrorView::AuthFailed(c.user))
        },
    }
}

/// A request as accepted, over views.
pub open spec fn request_result(r: Result<ConnectRequest, ConnectError>) -> Result<
    ConnectRequestView,
    ConnectErrorView,
> {
    match r {
        Ok(q) => Ok(q@),
        Err(e) => Err(e@),
    }
}

/// Ends a handshake. `verified` is the answer of the authentication state on
/// the credentials; an anonymous client needs none.
pub fn finish_http_connect(
    handshake: Handshake,
    pipelined: Vec<u8>,
    verified: bool,
) -> (r: Result<ConnectRequest, ConnectError>)
    ensures
        request_result(r) == request_of(handshake@, pipelined@, verified),
{
    match handshake.admission {
        Admission::Anonymous => Ok(
            ConnectRequest { target: handshake.target, pipelined, client_user: None },
        ),
        Admission::Verify(c) => {
            if verified {
                Ok(
                    ConnectRequest {
                        target: handshake.target,
                        pipelined,
                        client_user: Some(c.user),
                    },
                )
            } else {
                Err(ConnectError::AuthFailed(c.user))
            }
        },
    }
}

/// A server without users that does not allow anonymous clients refuses every
/// request; one that is otherwise in order is answered `407`.
pub proof fn server_without_access_refuses_everyone(head: Seq<u8>, authority_ok: bool)
    ensures
        handshake_of(head, authority_ok, false, false) is Err,
        target_of(head) is Ok && authority_ok ==> error_response(
            handshake_of(head, authority_ok, false, false)->Err_0,
        ) == Some(Response::ProxyAuthenticationRequired),
{
}

/// An accepted client was verified under its name, or is anonymous, sent no
/// credentials, and may be.
pub proof fn accepted_client_was_entitled(
    head: Seq<u8>,
    authority_ok: bool,
    has_users: bool,
    allow_anonymous: bool,
    verified: bool,
    pipelined: Seq<u8>,
    request: ConnectRequestView,
)
    requires
        handshake_of(head, authority_ok, has_users, allow_anonymous) is Ok,
        request_of(
            handshake_of(head, authority_ok, has_users, allow_anonymous)->Ok_0,
            pipelined,
            verified,
        ) == Ok::<ConnectRequestView, ConnectErrorView>(request),
    ensures
        authority_ok,
        target_of(head) == Ok::<Seq<char>, ConnectErrorView>(request.target),
        request.pipelined == pipelined,
        match request.client_user {
            Some(user) => {
                &&& has_users
                &&& verified
                &&& credentials_of(head) matches Ok(Some(c)) && c.user == user
            },
            None => allow_anonymous && credentials_of(head) == Ok::<
                Option<CredentialsView>,
                ConnectErrorView,
            >(None),
        },
{
}

/// Every client that is entitled to a tunnel gets one: a well-formed request
/// without credentials where `allow_anonymous` is on, users or not, and one
/// with credentials that verify where there are users.
pub proof fn entitled_client_is_accepted(
    head: Seq<u8>,
    target: Seq<char>,
    credentials: Option<CredentialsView>,
    has_users: bool,
    allow_anonymous: bool,
    pipelined: Seq<u8>,
)
    requires
        target_of(head) == Ok::<Seq<char>, ConnectErrorView>(target),
        credentials_of(head) == Ok::<Option<CredentialsView>, ConnectErrorView>(credentials),
        if credentials is Some {
            has_users
        } else {
            allow_anonymous
        },
    ensures
        handshake_of(head, true, has_users, allow_anonymous) matches Ok(h) && request_of(
            h,
            pipelined,
            true,
        ) == Ok::<ConnectRequestView, ConnectErrorView>(
            ConnectRequestView {
                target,
                pipelined,
                client_user: match credentials {
                    Some(c) => Some(c.user),
                    None => None,
                },
            },
        ),
{
}

/// Credentials that do not verify are never accepted as anonymous instead.
pub proof fn failed_credentials_are_refused(
    head: Seq<u8>,
    authority_ok: bool,
    has_users: bool,
    allow_anonymous: bool,
    pipelined: Seq<u8>,
)
    requires
        first_credentials_field(field_lines(head)) is Some,
    ensures
        match handshake_of(head, authority_ok, has_users, allow_anonymous) {
            Ok(h) => request_of(h, pipelined, false) is Err,
            Err(_) => true,
        },
{
}

/// Every refused handshake is answered with an error status.
pub proof fn refused_handshake_is_answered(
    head: Seq<u8>,
    authority_ok: bool,
    has_users: bool,
    allow_anonymous: bool,
)
    requires
        handshake_of(head, authority_ok, has_users, allow_anonymous) is Err,
    ensures
        error_response(handshake_of(head, authority_ok, has_users, allow_anonymous)->Err_0)
            matches Some(answer) && (answer == Response::BadRequest || answer
            == Response::NotImplemented || answer == Response::ProxyAuthenticationRequired),
{
}

/// Only the request line and the credentials field of a header block matter:
/// other fields may hold any bytes.
pub proof fn other_fields_do_not_matter(
    head1: Seq<u8>,
    head2: Seq<u8>,
    authority_ok: bool,
    has_users: bool,
    allow_anonymous: bool,
)
    requires
        request_line(head1) == request_line(head2),
        first_credentials_field(field_lines(head1)) == first_credentials_field(field_lines(head2)),
    ensures
        handshake_of(head1, authority_ok, has_users, allow_anonymous) == handshake_of(
            head2,
            authority_ok,
            has_users,
            allow_anonymous,
        ),
{
}

} // verus!
