//! What holds of every CONNECT request, told by its bytes and texts.

use vstd::prelude::*;
use vstd::utf8::{
    decode_utf8, encode_utf8, encode_utf8_decode_utf8, encode_utf8_valid_utf8, valid_utf8,
};

use crate::auth::hash::{cache_tag, hash_accepts};
use crate::auth::state::{is_login, AuthView, ClaimPersist};
use crate::config::users::lemma_position_is;
use crate::http::accept::is_acceptance;
use crate::http::byte_lines::{
    crlf, double_crlf, first_index, lemma_first_index_is, lemma_first_index_none, lines_of,
    stands_at,
};
use crate::http::connect::{
    base64_standard, basic_token, credentials_field, credentials_of, credentials_of_bytes,
    credentials_result, cut, error_response, error_text, field_lines, first_credentials_field,
    handshake_of, handshake_result, is_ascii_space, is_control_or_space, option_bytes, request_line,
    request_of, request_result, spells, target_of, text_result, trimmed_bytes, Admission,
    AdmissionView, ConnectError, ConnectErrorView, ConnectRequest, ConnectRequestView, Credentials,
    CredentialsView, Handshake, HandshakeView,
};
use crate::http::header::{header_progress, HeaderProgress};
use crate::http::response::{response_text, Response};
use crate::text::{
    all_meet, ascii_lower, debug_text, ends_fail, first_of, first_split_cuts_the_text,
    first_split_finds_the_sides, is_white_space, lemma_elem_from, only_ascii_case_is_passed_over,
    same_but_ascii_case, split_first, strip_leaves_the_middle, trim_gives_back_the_text, trimmed,
};

verus! {

/// Whether bytes hold no carriage return with a line feed behind it.
pub open spec fn holds_no_line_end(b: Seq<u8>) -> bool {
    forall|i: int| 0 <= i && i + 1 < b.len() ==> !(#[trigger] b[i] == 13 && b[i + 1] == 10)
}

/// A CRLF that no other stands before is the first.
proof fn lemma_first_line_end(line: Seq<u8>, rest: Seq<u8>)
    requires
        holds_no_line_end(line),
    ensures
        first_index(line + seq![13u8, 10u8] + rest, crlf()) == Some(line.len() as int),
{
    let s = line + seq![13u8, 10u8] + rest;
    let n = line.len() as int;
    assert(s.subrange(n, n + 2) =~= crlf());
    assert forall|j: int| 0 <= j < n implies !stands_at(s, crlf(), j) by {
        if stands_at(s, crlf(), j) {
            assert(s.subrange(j, j + 2)[0] == s[j]);
            assert(s.subrange(j, j + 2)[1] == s[j + 1]);
            assert(line[j] == s[j]);
            if j + 1 < n {
                assert(line[j + 1] == s[j + 1]);
            }
        }
    }
    lemma_first_index_is(s, crlf(), n);
}

/// Bytes without a line end have no CRLF in them.
proof fn lemma_no_line_end(line: Seq<u8>)
    requires
        holds_no_line_end(line),
    ensures
        first_index(line, crlf()) is None,
{
    assert forall|j: int| 0 <= j implies !stands_at(line, crlf(), j) by {
        if stands_at(line, crlf(), j) {
            assert(line.subrange(j, j + 2)[0] == line[j]);
            assert(line.subrange(j, j + 2)[1] == line[j + 1]);
        }
    }
    lemma_first_index_none(line, crlf());
}

/// A block of lines is read line by line: the first one ends at the first
/// carriage return with a line feed behind it.
pub proof fn block_is_read_line_by_line(line: Seq<u8>, rest: Seq<u8>)
    requires
        holds_no_line_end(line),
    ensures
        lines_of(line + seq![13u8, 10u8] + rest) == seq![line] + lines_of(rest),
        lines_of(line) == (if line.len() == 0 {
            seq![]
        } else {
            seq![line]
        }),
{
    let s = line + seq![13u8, 10u8] + rest;
    lemma_first_line_end(line, rest);
    lemma_no_line_end(line);
    assert(s.subrange(0, line.len() as int) =~= line);
    assert(s.subrange(line.len() as int + 2, s.len() as int) =~= rest);
}

/// The request line of a block is the text of its first line.
pub proof fn request_line_is_the_first_line(line: Seq<char>, rest: Seq<u8>)
    requires
        holds_no_line_end(encode_utf8(line)),
    ensures
        request_line(encode_utf8(line) + seq![13u8, 10u8] + rest) == Some(line),
        request_line(encode_utf8(line)) == Some(line),
        field_lines(encode_utf8(line) + seq![13u8, 10u8] + rest) == lines_of(rest),
        field_lines(encode_utf8(line)) == Seq::<Seq<u8>>::empty(),
{
    let b = encode_utf8(line);
    block_is_read_line_by_line(b, rest);
    encode_utf8_decode_utf8(line);
    encode_utf8_valid_utf8(line);
    let lines = lines_of(b + seq![13u8, 10u8] + rest);
    assert(lines[0] == b);
    assert(lines.skip(1) =~= lines_of(rest));
    if b.len() == 0 {
        assert(line =~= seq![]);
    } else {
        assert(lines_of(b)[0] == b);
        assert(lines_of(b).skip(1) =~= Seq::<Seq<u8>>::empty());
    }
}

/// The ASCII control characters and the space.
proof fn lemma_control_or_space(c: char)
    ensures
        is_control_or_space(c) <==> c <= '\u{20}' || c == '\u{7f}',
{
    assert(c as u32 == 0x7f ==> c == '\u{7f}');
}

/// Whether a text can be a target: not empty, without spaces and control
/// characters.
pub open spec fn can_be_target(target: Seq<char>) -> bool {
    target.len() > 0 && forall|i: int|
        0 <= i < target.len() ==> '\u{20}' < #[trigger] target[i] && target[i] != '\u{7f}'
}

/// A request line `CONNECT target HTTP/...` gives its target, unchanged.
pub proof fn connect_line_gives_its_target(head: Seq<u8>, target: Seq<char>, version: Seq<char>)
    requires
        request_line(head) == Some("CONNECT "@ + target + " "@ + "HTTP/"@ + version),
        can_be_target(target),
    ensures
        target_of(head) == Ok::<Seq<char>, ConnectErrorView>(target),
{
    reveal_strlit("CONNECT ");
    reveal_strlit("CONNECT");
    reveal_strlit(" ");
    reveal_strlit("HTTP/");
    let line = request_line(head)->0;
    let v = "HTTP/"@ + version;
    let rest = target + seq![' '] + v;
    assert(line =~= "CONNECT"@ + seq![' '] + rest);
    assert(!"CONNECT"@.contains(' '));
    first_split_finds_the_sides("CONNECT"@, rest, ' ');
    assert(!target.contains(' '));
    first_split_finds_the_sides(target, v, ' ');
    assert(v.subrange(0, 5) =~= "HTTP/"@);
    assert forall|i: int| 0 <= i < target.len() implies !is_control_or_space(target[i]) by {
        assert('\u{20}' < target[i] && target[i] != '\u{7f}');
        lemma_control_or_space(target[i]);
    }
}

/// A target comes from such a line alone.
pub proof fn target_comes_from_a_connect_line(head: Seq<u8>) -> (version: Seq<char>)
    ensures
        target_of(head) matches Ok(target) ==> can_be_target(target) && request_line(head) == Some(
            "CONNECT "@ + target + " "@ + "HTTP/"@ + version,
        ),
{
    reveal_strlit("CONNECT ");
    reveal_strlit("CONNECT");
    reveal_strlit(" ");
    reveal_strlit("HTTP/");
    if target_of(head) is Ok {
        let line = request_line(head)->0;
        let (method, rest) = cut(line, ' ');
        let (target, v) = cut(rest, ' ');
        first_split_cuts_the_text(line, ' ');
        first_split_cuts_the_text(rest, ' ');
        let version = v.skip(5);
        assert(v =~= "HTTP/"@ + version) by {
            assert(v.subrange(0, 5) == "HTTP/"@);
        }
        assert(line =~= "CONNECT "@ + target + " "@ + "HTTP/"@ + version);
        assert forall|i: int| 0 <= i < target.len() implies '\u{20}' < #[trigger] target[i]
            && target[i] != '\u{7f}' by {
            assert(!is_control_or_space(target[i]));
            lemma_control_or_space(target[i]);
        }
        version
    } else {
        seq![]
    }
}

/// Another method is refused as such, whatever it asks for.
pub proof fn other_method_is_not_supported(
    head: Seq<u8>,
    method: Seq<char>,
    target: Seq<char>,
    version: Seq<char>,
)
    requires
        request_line(head) == Some(method + " "@ + target + " "@ + "HTTP/"@ + version),
        method.len() > 0,
        !method.contains(' '),
        method != "CONNECT"@,
        target.len() > 0,
        !target.contains(' '),
    ensures
        target_of(head) == Err::<Seq<char>, ConnectErrorView>(
            ConnectErrorView::MethodNotSupported(method),
        ),
{
    reveal_strlit(" ");
    reveal_strlit("HTTP/");
    let line = request_line(head)->0;
    let v = "HTTP/"@ + version;
    let rest = target + seq![' '] + v;
    assert(line =~= method + seq![' '] + rest);
    first_split_finds_the_sides(method, rest, ' ');
    first_split_finds_the_sides(target, v, ' ');
    assert(v.subrange(0, 5) =~= "HTTP/"@);
}

/// A line that is not three parts with `HTTP/` before the third is malformed.
pub proof fn line_of_another_shape_is_malformed(head: Seq<u8>, line: Seq<char>)
    requires
        request_line(head) == Some(line),
        forall|method: Seq<char>, target: Seq<char>, version: Seq<char>|
            method.len() > 0 && !method.contains(' ') && target.len() > 0 && !target.contains(' ')
                ==> line != #[trigger] (method + " "@ + target + " "@ + "HTTP/"@ + version),
    ensures
        target_of(head) == Err::<Seq<char>, ConnectErrorView>(
            ConnectErrorView::MalformedRequestLine(line),
        ),
{
    reveal_strlit(" ");
    reveal_strlit("HTTP/");
    let (method, rest) = cut(line, ' ');
    let (target, v) = cut(rest, ' ');
    first_split_cuts_the_text(line, ' ');
    first_split_cuts_the_text(rest, ' ');
    if method.len() > 0 && target.len() > 0 && "HTTP/"@.is_prefix_of(v) {
        let version = v.skip(5);
        assert(v =~= "HTTP/"@ + version) by {
            assert(v.subrange(0, 5) == "HTTP/"@);
        }
        assert(line =~= method + " "@ + target + " "@ + "HTTP/"@ + version);
    }
}

/// A `CONNECT` with a space or control character in its target is refused.
pub proof fn target_with_a_control_character_is_refused(
    head: Seq<u8>,
    target: Seq<char>,
    version: Seq<char>,
    i: int,
)
    requires
        request_line(head) == Some("CONNECT "@ + target + " "@ + "HTTP/"@ + version),
        !target.contains(' '),
        0 <= i < target.len(),
        target[i] < '\u{20}' || target[i] == '\u{7f}',
    ensures
        target_of(head) == Err::<Seq<char>, ConnectErrorView>(
            ConnectErrorView::TargetHasControlBytes(target),
        ),
{
    reveal_strlit("CONNECT ");
    reveal_strlit("CONNECT");
    reveal_strlit(" ");
    reveal_strlit("HTTP/");
    let line = request_line(head)->0;
    let v = "HTTP/"@ + version;
    let rest = target + seq![' '] + v;
    assert(line =~= "CONNECT"@ + seq![' '] + rest);
    assert(!"CONNECT"@.contains(' '));
    first_split_finds_the_sides("CONNECT"@, rest, ' ');
    first_split_finds_the_sides(target, v, ' ');
    assert(v.subrange(0, 5) =~= "HTTP/"@);
    lemma_control_or_space(target[i]);
    assert(is_control_or_space(target[i]));
}

/// The credentials are the decoded text itself, cut at its first colon: the
/// user name holds no colon, and name, colon and password are the text,
/// character for character.
pub proof fn credentials_are_the_decoded_text(bytes: Seq<u8>)
    requires
        valid_utf8(bytes),
    ensures
        match credentials_of_bytes(Some(bytes)) {
            Ok(c) => !c.user.contains(':') && c.user + seq![':'] + c.password == decode_utf8(bytes),
            Err(e) => e == ConnectErrorView::MissingColon && !decode_utf8(bytes).contains(':'),
        },
{
    first_split_cuts_the_text(decode_utf8(bytes), ':');
}

/// Bytes that are no text, and a token that is no base64, are no credentials.
pub proof fn other_bytes_are_no_credentials(bytes: Seq<u8>)
    requires
        !valid_utf8(bytes),
    ensures
        credentials_of_bytes(Some(bytes)) == Err::<CredentialsView, ConnectErrorView>(
            ConnectErrorView::CredentialsNotUtf8,
        ),
        credentials_of_bytes(None) == Err::<CredentialsView, ConnectErrorView>(
            ConnectErrorView::Base64Invalid,
        ),
{
}

/// Whether all bytes are spaces, tabs, line feeds, form feeds or carriage
/// returns.
pub open spec fn is_blank(b: Seq<u8>) -> bool {
    forall|i: int|
        0 <= i < b.len() ==> {
            ||| #[trigger] b[i] == 32
            ||| b[i] == 9
            ||| b[i] == 10
            ||| b[i] == 12
            ||| b[i] == 13
        }
}

/// Whether bytes do not begin or end with blank ones.
pub open spec fn has_no_blank_ends(b: Seq<u8>) -> bool {
    b.len() > 0 ==> !is_blank(seq![b[0]]) && !is_blank(seq![b.last()])
}

/// Blank bytes are what is trimmed.
proof fn lemma_trim_bytes(l: Seq<u8>, e: Seq<u8>, r: Seq<u8>)
    requires
        is_blank(l),
        is_blank(r),
        has_no_blank_ends(e),
    ensures
        trimmed_bytes(l + e + r) == e,
{
    let p = |b: u8| is_ascii_space(b);
    if e.len() > 0 {
        if is_ascii_space(e[0]) {
            assert(is_blank(seq![e[0]]));
        }
        if is_ascii_space(e.last()) {
            assert(is_blank(seq![e.last()]));
        }
    }
    strip_leaves_the_middle(l, e, r, p);
}

/// Whether bytes are a name in ASCII letters and signs, in upper or lower case.
pub open spec fn is_name_in_any_case(b: Seq<u8>, name: Seq<char>) -> bool {
    b.len() == name.len() && forall|i: int|
        0 <= i < b.len() ==> {
            ||| #[trigger] b[i] == name[i] as u32
            ||| 'a' <= name[i] <= 'z' && b[i] + 32 == name[i] as u32
        }
}

/// The name of the field that carries the credentials, in any case.
proof fn lemma_spells_the_name(b: Seq<u8>)
    ensures
        spells(b, "proxy-authorization"@) <==> is_name_in_any_case(b, "proxy-authorization"@),
{
    reveal_strlit("proxy-authorization");
    let name = "proxy-authorization"@;
    if b.len() == name.len() {
        assert forall|i: int| 0 <= i < b.len() implies (ascii_lower(b[i] as char) == ascii_lower(
            name[i],
        ) <==> (#[trigger] b[i] == name[i] as u32 || ('a' <= name[i] <= 'z' && b[i] + 32
            == name[i] as u32))) by {
            let c = b[i] as char;
            assert(c as u32 == b[i] as u32);
            assert('A' <= c <= 'Z' ==> ascii_lower(c) as u32 == c as u32 + 32);
            assert(ascii_lower(name[i]) == name[i]);
            assert(ascii_lower(c) == name[i] <==> ascii_lower(c) as u32 == name[i] as u32);
            assert(name[i] == '-' || 'a' <= name[i] <= 'z');
        }
        if spells(b, name) {
            assert forall|i: int| 0 <= i < b.len() implies ({
                ||| #[trigger] b[i] == name[i] as u32
                ||| 'a' <= name[i] <= 'z' && b[i] + 32 == name[i] as u32
            }) by {
                assert(ascii_lower(b[i] as char) == ascii_lower(name[i]));
            }
        }
    }
}

/// A `Proxy-Authorization` line gives its value: the bytes behind the first
/// colon without the blanks around them. Case and blanks around the name do
/// not matter.
pub proof fn credentials_line_gives_its_value(
    l1: Seq<u8>,
    name: Seq<u8>,
    r1: Seq<u8>,
    l2: Seq<u8>,
    value: Seq<u8>,
    r2: Seq<u8>,
)
    requires
        is_blank(l1),
        is_blank(r1),
        is_blank(l2),
        is_blank(r2),
        is_name_in_any_case(name, "proxy-authorization"@),
        has_no_blank_ends(value),
    ensures
        credentials_field(l1 + name + r1 + seq![58u8] + (l2 + value + r2)) == Some(value),
{
    reveal_strlit("proxy-authorization");
    let left = l1 + name + r1;
    let right = l2 + value + r2;
    let line = left + seq![58u8] + right;
    let n = left.len() as int;
    assert forall|j: int| 0 <= j < n implies #[trigger] left[j] != 58 by {
        if j < l1.len() {
            assert(left[j] == l1[j]);
        } else if j < l1.len() + name.len() {
            assert(left[j] == name[j - l1.len()]);
            assert("proxy-authorization"@[j - l1.len()] as u32 != 58);
        } else {
            assert(left[j] == r1[j - l1.len() - name.len()]);
        }
    }
    lemma_elem_from(line, 58u8, 0);
    assert(line[n] == 58);
    let colon = first_of(line, 58u8)->0;
    if colon < n {
        assert(left[colon] == line[colon]);
    }
    assert(colon == n);
    assert(line.take(n) =~= left);
    assert(line.skip(n + 1) =~= right);
    assert(has_no_blank_ends(name)) by {
        assert(name[0] == 'p' as u32 || name[0] + 32 == 'p' as u32);
        assert(name[18] == 'n' as u32 || name[18] + 32 == 'n' as u32);
        if is_blank(seq![name[0]]) {
            assert(seq![name[0]][0] == name[0]);
        }
        if is_blank(seq![name.last()]) {
            assert(seq![name.last()][0] == name[18]);
        }
    }
    lemma_trim_bytes(l1, name, r1);
    lemma_trim_bytes(l2, value, r2);
    lemma_spells_the_name(name);
}

/// No other line is taken for one: a line without a colon, or with another
/// name before its first colon, carries no credentials.
pub proof fn other_line_carries_no_credentials(l: Seq<u8>, name: Seq<u8>, r: Seq<u8>, rest: Seq<u8>)
    requires
        is_blank(l),
        is_blank(r),
        has_no_blank_ends(name),
        !name.contains(58u8),
        !is_name_in_any_case(name, "proxy-authorization"@),
    ensures
        credentials_field(l + name + r + seq![58u8] + rest) is None,
        credentials_field(l + name + r) is None,
{
    let left = l + name + r;
    let line = left + seq![58u8] + rest;
    let n = left.len() as int;
    assert forall|j: int| 0 <= j < n implies #[trigger] left[j] != 58 by {
        if j < l.len() {
            assert(left[j] == l[j]);
        } else if j < l.len() + name.len() {
            assert(left[j] == name[j - l.len()]);
            assert(name.contains(name[j - l.len()]));
        } else {
            assert(left[j] == r[j - l.len() - name.len()]);
        }
    }
    lemma_elem_from(line, 58u8, 0);
    lemma_elem_from(left, 58u8, 0);
    assert(line[n] == 58);
    let colon = first_of(line, 58u8)->0;
    if colon < n {
        assert(left[colon] == line[colon]);
    }
    assert(line.take(n) =~= left);
    lemma_trim_bytes(l, name, r);
    lemma_spells_the_name(name);
    if first_of(left, 58u8) is Some {
        assert(left[first_of(left, 58u8)->0] == 58);
    }
}

/// Of several such lines the first counts.
pub proof fn first_credentials_line_counts(lines: Seq<Seq<u8>>)
    ensures
        match first_credentials_field(lines) {
            Some(value) => exists|i: int|
                {
                    &&& 0 <= i < lines.len()
                    &&& credentials_field(#[trigger] lines[i]) == Some(value)
                    &&& forall|j: int|
                        0 <= j < i ==> credentials_field(#[trigger] lines[j]) is None
                },
            None => forall|i: int|
                0 <= i < lines.len() ==> credentials_field(#[trigger] lines[i]) is None,
        },
    decreases lines.len(),
{
    if lines.len() > 0 {
        let rest = lines.skip(1);
        if credentials_field(lines[0]) is None {
            first_credentials_line_counts(rest);
            match first_credentials_field(rest) {
                Some(value) => {
                    let i = choose|i: int|
                        {
                            &&& 0 <= i < rest.len()
                            &&& credentials_field(#[trigger] rest[i]) == Some(value)
                            &&& forall|j: int|
                                0 <= j < i ==> credentials_field(#[trigger] rest[j]) is None
                        };
                    assert(lines[i + 1] == rest[i]);
                    assert forall|j: int| 0 <= j < i + 1 implies credentials_field(
                        #[trigger] lines[j],
                    ) is None by {
                        if j > 0 {
                            assert(lines[j] == rest[j - 1]);
                        }
                    }
                },
                None => {
                    assert forall|i: int| 0 <= i < lines.len() implies credentials_field(
                        #[trigger] lines[i],
                    ) is None by {
                        if i > 0 {
                            assert(lines[i] == rest[i - 1]);
                        }
                    }
                },
            }
        } else {
            assert(credentials_field(lines[0]) == first_credentials_field(lines));
        }
    }
}

/// Whether a text is `basic` in upper or lower case.
pub open spec fn is_basic_in_any_case(scheme: Seq<char>) -> bool {
    &&& scheme.len() == 5
    &&& scheme[0] == 'b' || scheme[0] == 'B'
    &&& scheme[1] == 'a' || scheme[1] == 'A'
    &&& scheme[2] == 's' || scheme[2] == 'S'
    &&& scheme[3] == 'i' || scheme[3] == 'I'
    &&& scheme[4] == 'c' || scheme[4] == 'C'
}

/// The scheme `Basic`, in any case.
proof fn lemma_scheme(scheme: Seq<char>)
    ensures
        same_but_ascii_case(scheme, "Basic"@) <==> is_basic_in_any_case(scheme),
{
    reveal_strlit("Basic");
    let b = "Basic"@;
    only_ascii_case_is_passed_over(scheme, b);
    if same_but_ascii_case(scheme, b) {
        assert(scheme[0] == b[0] || scheme[0] as u32 == b[0] as u32 + 32 || scheme[0] as u32 + 32
            == b[0] as u32);
        assert(scheme[1] == b[1] || scheme[1] as u32 + 32 == b[1] as u32 || scheme[1] as u32
            == b[1] as u32 + 32);
        assert(scheme[2] == b[2] || scheme[2] as u32 + 32 == b[2] as u32);
        assert(scheme[3] == b[3] || scheme[3] as u32 + 32 == b[3] as u32);
        assert(scheme[4] == b[4] || scheme[4] as u32 + 32 == b[4] as u32);
    }
}

/// A `Basic` value gives its token, without the white space around it.
pub proof fn basic_value_gives_its_token(
    scheme: Seq<char>,
    l: Seq<char>,
    token: Seq<char>,
    r: Seq<char>,
)
    requires
        is_basic_in_any_case(scheme),
        all_meet(l, |c: char| is_white_space(c)),
        all_meet(r, |c: char| is_white_space(c)),
        ends_fail(token, |c: char| is_white_space(c)),
    ensures
        basic_token(scheme + seq![' '] + (l + token + r)) == Some(token),
{
    assert(!scheme.contains(' '));
    first_split_finds_the_sides(scheme, l + token + r, ' ');
    lemma_scheme(scheme);
    trim_gives_back_the_text(l, token, r);
}

/// A value of another scheme, or without a space, gives none.
pub proof fn other_scheme_gives_no_token(scheme: Seq<char>, rest: Seq<char>)
    requires
        !scheme.contains(' '),
        !is_basic_in_any_case(scheme),
    ensures
        basic_token(scheme + seq![' '] + rest) is None,
        basic_token(scheme) is None,
{
    first_split_finds_the_sides(scheme, rest, ' ');
    first_split_cuts_the_text(scheme, ' ');
    if let Some((left, right)) = split_first(scheme, ' ') {
        assert(scheme[left.len() as int] == ' ');
    }
    lemma_scheme(scheme);
}

/// What a client sends as `user:password` in the field is what the server
/// reads, character for character.
pub proof fn sent_credentials_are_read(
    head: Seq<u8>,
    scheme: Seq<char>,
    token: Seq<char>,
    user: Seq<char>,
    password: Seq<char>,
)
    requires
        first_credentials_field(field_lines(head)) == Some(encode_utf8(scheme + seq![' '] + token)),
        is_basic_in_any_case(scheme),
        ends_fail(token, |c: char| is_white_space(c)),
        base64_standard(token) == Some(
            encode_utf8(user + seq![':'] + password),
        ),
        !user.contains(':'),
    ensures
        credentials_of(head) == Ok::<Option<CredentialsView>, ConnectErrorView>(
            Some(CredentialsView { user, password }),
        ),
{
    let value = scheme + seq![' '] + token;
    encode_utf8_decode_utf8(value);
    encode_utf8_valid_utf8(value);
    basic_value_gives_its_token(scheme, seq![], token, seq![]);
    assert(Seq::<char>::empty() + token + Seq::<char>::empty() =~= token);
    let text = user + seq![':'] + password;
    encode_utf8_decode_utf8(text);
    encode_utf8_valid_utf8(text);
    first_split_finds_the_sides(user, password, ':');
}

/// A block without such a line carries no credentials, and one with such a
/// line never counts as carrying none.
pub proof fn credentials_are_none_only_without_the_field(head: Seq<u8>)
    ensures
        credentials_of(head) == Ok::<Option<CredentialsView>, ConnectErrorView>(None) <==> forall|
            i: int,
        |
            0 <= i < field_lines(head).len() ==> credentials_field(#[trigger] field_lines(head)[i])
                is None,
{
    first_credentials_line_counts(field_lines(head));
}

/// What a handshake hands on is what the client sent: its target, and its
/// credentials as they were read.
pub proof fn handshake_hands_on_what_was_sent(
    head: Seq<u8>,
    authority_ok: bool,
    has_users: bool,
    allow_anonymous: bool,
    h: HandshakeView,
)
    requires
        handshake_of(head, authority_ok, has_users, allow_anonymous) == Ok::<
            HandshakeView,
            ConnectErrorView,
        >(h),
    ensures
        authority_ok,
        target_of(head) == Ok::<Seq<char>, ConnectErrorView>(h.target),
        match h.admission {
            AdmissionView::Verify(c) => has_users && credentials_of(head) == Ok::<
                Option<CredentialsView>,
                ConnectErrorView,
            >(Some(c)),
            AdmissionView::Anonymous => allow_anonymous && credentials_of(head) == Ok::<
                Option<CredentialsView>,
                ConnectErrorView,
            >(None),
        },
{
}

/// A request is refused for the first thing that is wrong with it: its line,
/// its target, its credentials, or what the server allows.
pub proof fn refusal_has_its_reason(
    head: Seq<u8>,
    authority_ok: bool,
    has_users: bool,
    allow_anonymous: bool,
    e: ConnectErrorView,
)
    requires
        handshake_of(head, authority_ok, has_users, allow_anonymous) == Err::<
            HandshakeView,
            ConnectErrorView,
        >(e),
    ensures
        match target_of(head) {
            Err(wrong) => e == wrong,
            Ok(target) => if !authority_ok {
                e == ConnectErrorView::TargetNotAuthority(target)
            } else {
                match credentials_of(head) {
                    Err(wrong) => e == wrong,
                    Ok(Some(_)) => e == ConnectErrorView::NoUsersConfigured && !has_users,
                    Ok(None) => e == ConnectErrorView::AnonymousNotAllowed && !allow_anonymous,
                }
            },
        },
{
}

/// Verified credentials open the tunnel under the client's own name; others are
/// refused under it. An anonymous client has no name.
pub proof fn request_is_the_handshake(h: HandshakeView, pipelined: Seq<u8>, verified: bool)
    ensures
        match (h.admission, request_of(h, pipelined, verified)) {
            (AdmissionView::Verify(c), Ok(q)) => verified && q.client_user == Some(c.user)
                && q.target == h.target && q.pipelined == pipelined,
            (AdmissionView::Verify(c), Err(e)) => !verified && e == ConnectErrorView::AuthFailed(
                c.user,
            ),
            (AdmissionView::Anonymous, Ok(q)) => q.client_user is None && q.target == h.target
                && q.pipelined == pipelined,
            (AdmissionView::Anonymous, Err(_)) => false,
        },
{
}

/// Whether a response begins with this status line.
pub open spec fn answers_with(response: Option<Response>, start: Seq<char>) -> bool {
    response matches Some(r) && start.is_prefix_of(response_text(r))
}

/// Every response begins with its status line, and the challenge names scheme,
/// realm and charset.
pub proof fn responses_have_their_status(r: Response)
    ensures
        (match r {
            Response::BadRequest => "HTTP/1.1 400 Bad Request\r\n"@,
            Response::Forbidden => "HTTP/1.1 403 Forbidden\r\n"@,
            Response::ProxyAuthenticationRequired => "HTTP/1.1 407 Proxy Authentication Required\r\nProxy-Authenticate: Basic realm=\"resocks5\", charset=\"UTF-8\"\r\n"@,
            Response::HeaderFieldsTooLarge => "HTTP/1.1 431 Request Header Fields Too Large\r\n"@,
            Response::NotImplemented => "HTTP/1.1 501 Not Implemented\r\n"@,
            Response::BadGateway => "HTTP/1.1 502 Bad Gateway\r\n"@,
            Response::ServiceUnavailable => "HTTP/1.1 503 Service Unavailable\r\n"@,
        }).is_prefix_of(response_text(r)),
{
    reveal_strlit("HTTP/1.1 400 Bad Request\r\n");
    reveal_strlit("HTTP/1.1 403 Forbidden\r\n");
    reveal_strlit(
        "HTTP/1.1 407 Proxy Authentication Required\r\nProxy-Authenticate: Basic realm=\"resocks5\", charset=\"UTF-8\"\r\n",
    );
    reveal_strlit("HTTP/1.1 431 Request Header Fields Too Large\r\n");
    reveal_strlit("HTTP/1.1 501 Not Implemented\r\n");
    reveal_strlit("HTTP/1.1 502 Bad Gateway\r\n");
    reveal_strlit("HTTP/1.1 503 Service Unavailable\r\n");
    reveal_strlit("HTTP/1.1 400 Bad Request\r\nConnection: close\r\nContent-Length: 0\r\n\r\n");
    reveal_strlit("HTTP/1.1 403 Forbidden\r\nConnection: close\r\nContent-Length: 0\r\n\r\n");
    reveal_strlit(
        "HTTP/1.1 407 Proxy Authentication Required\r\nProxy-Authenticate: Basic realm=\"resocks5\", charset=\"UTF-8\"\r\nConnection: close\r\nContent-Length: 0\r\n\r\n",
    );
    reveal_strlit(
        "HTTP/1.1 431 Request Header Fields Too Large\r\nConnection: close\r\nContent-Length: 0\r\n\r\n",
    );
    reveal_strlit("HTTP/1.1 501 Not Implemented\r\nConnection: close\r\nContent-Length: 0\r\n\r\n");
    reveal_strlit("HTTP/1.1 502 Bad Gateway\r\nConnection: close\r\nContent-Length: 0\r\n\r\n");
    reveal_strlit(
        "HTTP/1.1 503 Service Unavailable\r\nConnection: close\r\nContent-Length: 0\r\n\r\n",
    );
    let t = response_text(r);
    match r {
        Response::BadRequest => {
            assert("HTTP/1.1 400 Bad Request\r\n"@ =~= t.subrange(0, 26));
        },
        Response::Forbidden => {
            assert("HTTP/1.1 403 Forbidden\r\n"@ =~= t.subrange(0, 24));
        },
        Response::ProxyAuthenticationRequired => {
            let start = "HTTP/1.1 407 Proxy Authentication Required\r\nProxy-Authenticate: Basic realm=\"resocks5\", charset=\"UTF-8\"\r\n"@;
            assert(start =~= t.subrange(0, start.len() as int));
        },
        Response::HeaderFieldsTooLarge => {
            let start = "HTTP/1.1 431 Request Header Fields Too Large\r\n"@;
            assert(start =~= t.subrange(0, start.len() as int));
        },
        Response::NotImplemented => {
            let start = "HTTP/1.1 501 Not Implemented\r\n"@;
            assert(start =~= t.subrange(0, start.len() as int));
        },
        Response::BadGateway => {
            let start = "HTTP/1.1 502 Bad Gateway\r\n"@;
            assert(start =~= t.subrange(0, start.len() as int));
        },
        Response::ServiceUnavailable => {
            let start = "HTTP/1.1 503 Service Unavailable\r\n"@;
            assert(start =~= t.subrange(0, start.len() as int));
        },
    }
}

/// A bad request is answered `400`, another method `501`, a long header `431`,
/// and whatever is wrong with the credentials `407`. A client that is gone gets
/// nothing.
pub proof fn errors_have_their_status(e: ConnectErrorView)
    ensures
        match e {
            ConnectErrorView::ClosedEarly => error_response(e) is None,
            ConnectErrorView::HeadersTooLarge => answers_with(
                error_response(e),
                "HTTP/1.1 431 Request Header Fields Too Large\r\n"@,
            ),
            ConnectErrorView::MethodNotSupported(_) => answers_with(
                error_response(e),
                "HTTP/1.1 501 Not Implemented\r\n"@,
            ),
            ConnectErrorView::RequestLineNotUtf8 => answers_with(
                error_response(e),
                "HTTP/1.1 400 Bad Request\r\n"@,
            ),
            ConnectErrorView::MalformedRequestLine(_) => answers_with(
                error_response(e),
                "HTTP/1.1 400 Bad Request\r\n"@,
            ),
            ConnectErrorView::TargetHasControlBytes(_) => answers_with(
                error_response(e),
                "HTTP/1.1 400 Bad Request\r\n"@,
            ),
            ConnectErrorView::TargetNotAuthority(_) => answers_with(
                error_response(e),
                "HTTP/1.1 400 Bad Request\r\n"@,
            ),
            _ => answers_with(
                error_response(e),
                "HTTP/1.1 407 Proxy Authentication Required\r\nProxy-Authenticate: Basic realm=\"resocks5\", charset=\"UTF-8\"\r\n"@,
            ),
        },
{
    if let Some(r) = error_response(e) {
        responses_have_their_status(r);
    }
}

/// Whether bytes hold no two line ends in a row.
pub open spec fn holds_no_empty_line(b: Seq<u8>) -> bool {
    forall|i: int|
        0 <= i && i + 3 < b.len() ==> !(#[trigger] b[i] == 13 && b[i + 1] == 10 && b[i + 2] == 13
            && b[i + 3] == 10)
}

/// Where two line ends stand in a row.
proof fn lemma_empty_line_at(b: Seq<u8>, i: int)
    ensures
        stands_at(b, double_crlf(), i) <==> 0 <= i && i + 3 < b.len() && b[i] == 13 && b[i + 1]
            == 10 && b[i + 2] == 13 && b[i + 3] == 10,
{
    if 0 <= i && i + 4 <= b.len() {
        let w = b.subrange(i, i + 4);
        assert(w[0] == b[i] && w[1] == b[i + 1] && w[2] == b[i + 2] && w[3] == b[i + 3]);
        if b[i] == 13 && b[i + 1] == 10 && b[i + 2] == 13 && b[i + 3] == 10 {
            assert(w =~= double_crlf());
        }
    }
}

/// A header block ends at the first two line ends in a row, if that is within
/// 16384 bytes, whatever follows.
pub proof fn header_ends_at_the_first_empty_line(head: Seq<u8>, rest: Seq<u8>)
    requires
        holds_no_empty_line(head + seq![13u8, 10u8, 13u8]),
    ensures
        header_progress(head + seq![13u8, 10u8, 13u8, 10u8] + rest) == (if head.len() + 4 <= 16384 {
            HeaderProgress::Complete((head.len() + 4) as usize)
        } else {
            HeaderProgress::TooLarge
        }),
{
    let s = head + seq![13u8, 10u8, 13u8, 10u8] + rest;
    let n = head.len() as int;
    lemma_empty_line_at(s, n);
    let t = head + seq![13u8, 10u8, 13u8];
    assert forall|j: int| 0 <= j < n implies !stands_at(s, double_crlf(), j) by {
        lemma_empty_line_at(s, j);
        if stands_at(s, double_crlf(), j) {
            assert(t[j] == s[j] && t[j + 1] == s[j + 1] && t[j + 2] == s[j + 2] && t[j + 3] == s[j
                + 3]);
        }
    }
    lemma_first_index_is(s, double_crlf(), n);
}

/// Without two line ends in a row, more is awaited up to 16384 bytes.
pub proof fn open_header_is_awaited_up_to_the_limit(bytes: Seq<u8>)
    requires
        holds_no_empty_line(bytes),
    ensures
        header_progress(bytes) == (if bytes.len() <= 16384 {
            HeaderProgress::NeedMore
        } else {
            HeaderProgress::TooLarge
        }),
{
    assert forall|j: int| 0 <= j implies !stands_at(bytes, double_crlf(), j) by {
        lemma_empty_line_at(bytes, j);
    }
    lemma_first_index_none(bytes, double_crlf());
}

/// A user with a password that the account's hash accepts gets the tunnel,
/// under the name and to the target that were sent.
pub proof fn right_password_opens_the_tunnel(
    v: AuthView,
    head: Seq<u8>,
    pipelined: Seq<u8>,
    persist: ClaimPersist,
    target: Seq<char>,
    user: Seq<char>,
    password: Seq<char>,
    i: int,
    r: Result<ConnectRequestView, ConnectErrorView>,
    w: AuthView,
)
    requires
        is_acceptance(v, head, true, pipelined, persist, r, w),
        target_of(head) == Ok::<Seq<char>, ConnectErrorView>(target),
        credentials_of(head) == Ok::<Option<CredentialsView>, ConnectErrorView>(
            Some(CredentialsView { user, password }),
        ),
        0 <= i < v.users.len(),
        v.users[i].name == user,
        forall|j: int| 0 <= j < i ==> (#[trigger] v.users[j]).name != user,
        v.users[i].is_enabled,
        v.users[i].hash != "init"@,
        hash_accepts(v.users[i].hash, password),
    ensures
        r == Ok::<ConnectRequestView, ConnectErrorView>(
            ConnectRequestView { target, pipelined, client_user: Some(user) },
        ),
{
    lemma_position_is(v.users, user, i);
}

/// A password that the account's hash does not accept, and that is not the one
/// of a remembered login, is refused under the name that was sent.
pub proof fn wrong_password_is_refused(
    v: AuthView,
    head: Seq<u8>,
    pipelined: Seq<u8>,
    persist: ClaimPersist,
    user: Seq<char>,
    password: Seq<char>,
    i: int,
    r: Result<ConnectRequestView, ConnectErrorView>,
    w: AuthView,
)
    requires
        is_acceptance(v, head, true, pipelined, persist, r, w),
        target_of(head) is Ok,
        credentials_of(head) == Ok::<Option<CredentialsView>, ConnectErrorView>(
            Some(CredentialsView { user, password }),
        ),
        0 <= i < v.users.len(),
        v.users[i].name == user,
        forall|j: int| 0 <= j < i ==> (#[trigger] v.users[j]).name != user,
        v.users[i].hash != "init"@,
        !hash_accepts(v.users[i].hash, password),
        !v.cache.contains_key(user) || v.cache[user] != cache_tag(v.secret, user, password),
    ensures
        r == Err::<ConnectRequestView, ConnectErrorView>(ConnectErrorView::AuthFailed(user)),
        w == v,
{
    lemma_position_is(v.users, user, i);
}

/// A client without credentials gets the tunnel where the server allows it, and
/// nothing is remembered of it.
pub proof fn anonymous_client_gets_the_tunnel(
    v: AuthView,
    head: Seq<u8>,
    pipelined: Seq<u8>,
    persist: ClaimPersist,
    target: Seq<char>,
    r: Result<ConnectRequestView, ConnectErrorView>,
    w: AuthView,
)
    requires
        is_acceptance(v, head, true, pipelined, persist, r, w),
        target_of(head) == Ok::<Seq<char>, ConnectErrorView>(target),
        credentials_of(head) == Ok::<Option<CredentialsView>, ConnectErrorView>(None),
    ensures
        w == v,
        v.allow_anonymous ==> r == Ok::<ConnectRequestView, ConnectErrorView>(
            ConnectRequestView { target, pipelined, client_user: None },
        ),
        !v.allow_anonymous ==> r == Err::<ConnectRequestView, ConnectErrorView>(
            ConnectErrorView::AnonymousNotAllowed,
        ),
{
}

/// Credentials are logged in with as they were sent, and the login decides.
pub proof fn sent_credentials_are_logged_in_with(
    v: AuthView,
    head: Seq<u8>,
    pipelined: Seq<u8>,
    persist: ClaimPersist,
    target: Seq<char>,
    user: Seq<char>,
    password: Seq<char>,
    r: Result<ConnectRequestView, ConnectErrorView>,
    w: AuthView,
)
    requires
        is_acceptance(v, head, true, pipelined, persist, r, w),
        target_of(head) == Ok::<Seq<char>, ConnectErrorView>(target),
        credentials_of(head) == Ok::<Option<CredentialsView>, ConnectErrorView>(
            Some(CredentialsView { user, password }),
        ),
        v.users.len() > 0,
    ensures
        exists|ok: bool| #[trigger]
            is_login(v, user, password, persist, ok, w) && r == (if ok {
                Ok::<ConnectRequestView, ConnectErrorView>(
                    ConnectRequestView { target, pipelined, client_user: Some(user) },
                )
            } else {
                Err::<ConnectRequestView, ConnectErrorView>(ConnectErrorView::AuthFailed(user))
            }),
{
    let ok = choose|ok: bool| #[trigger]
        is_login(v, user, password, persist, ok, w) && r == request_of(
            handshake_of(head, true, true, v.allow_anonymous)->Ok_0,
            pipelined,
            ok,
        );
    assert(is_login(v, user, password, persist, ok, w));
}

/// What a client sent, and what is made of it, is seen as it is.
pub proof fn requests_are_seen_as_they_are(
    c: Credentials,
    q: ConnectRequest,
    h: Handshake,
    e: ConnectError,
    text: String,
    bytes: Vec<u8>,
)
    ensures
        c@.user == c.user@,
        c@.password == c.password@,
        q@.target == q.target@,
        q@.pipelined == q.pipelined@,
        q@.client_user == (match q.client_user {
            Some(name) => Some(name@),
            None => None::<Seq<char>>,
        }),
        h@.target == h.target@,
        h@.admission == (match h.admission {
            Admission::Anonymous => AdmissionView::Anonymous,
            Admission::Verify(sent) => AdmissionView::Verify(sent@),
        }),
        text_result(Ok(text)) == Ok::<Seq<char>, ConnectErrorView>(text@),
        text_result(Err(e)) == Err::<Seq<char>, ConnectErrorView>(e@),
        credentials_result(Ok(Some(c))) == Ok::<Option<CredentialsView>, ConnectErrorView>(
            Some(c@),
        ),
        credentials_result(Ok(None)) == Ok::<Option<CredentialsView>, ConnectErrorView>(None),
        credentials_result(Err(e)) == Err::<Option<CredentialsView>, ConnectErrorView>(e@),
        handshake_result(Ok(h)) == Ok::<HandshakeView, ConnectErrorView>(h@),
        handshake_result(Err(e)) == Err::<HandshakeView, ConnectErrorView>(e@),
        request_result(Ok(q)) == Ok::<ConnectRequestView, ConnectErrorView>(q@),
        request_result(Err(e)) == Err::<ConnectRequestView, ConnectErrorView>(e@),
        option_bytes(Some(bytes)) == Some(bytes@),
        option_bytes(None) is None,
{
}

/// An error is seen as what it is, with the text that it is about.
pub proof fn errors_are_seen_as_they_are(e: ConnectError)
    ensures
        match e {
            ConnectError::ClosedEarly => e@ == ConnectErrorView::ClosedEarly,
            ConnectError::HeadersTooLarge => e@ == ConnectErrorView::HeadersTooLarge,
            ConnectError::RequestLineNotUtf8 => e@ == ConnectErrorView::RequestLineNotUtf8,
            ConnectError::MalformedRequestLine(s) => e@ == ConnectErrorView::MalformedRequestLine(
                s@,
            ),
            ConnectError::MethodNotSupported(s) => e@ == ConnectErrorView::MethodNotSupported(s@),
            ConnectError::TargetHasControlBytes(s) => e@
                == ConnectErrorView::TargetHasControlBytes(s@),
            ConnectError::TargetNotAuthority(s) => e@ == ConnectErrorView::TargetNotAuthority(s@),
            ConnectError::CredentialsFieldNotUtf8 => e@
                == ConnectErrorView::CredentialsFieldNotUtf8,
            ConnectError::UnsupportedScheme => e@ == ConnectErrorView::UnsupportedScheme,
            ConnectError::Base64Invalid => e@ == ConnectErrorView::Base64Invalid,
            ConnectError::CredentialsNotUtf8 => e@ == ConnectErrorView::CredentialsNotUtf8,
            ConnectError::MissingColon => e@ == ConnectErrorView::MissingColon,
            ConnectError::NoUsersConfigured => e@ == ConnectErrorView::NoUsersConfigured,
            ConnectError::AuthFailed(s) => e@ == ConnectErrorView::AuthFailed(s@),
            ConnectError::AnonymousNotAllowed => e@ == ConnectErrorView::AnonymousNotAllowed,
        },
{
}

/// An error about a text quotes that text; an error about credentials quotes
/// nothing but a user name.
pub proof fn errors_quote_what_they_are_about(s: Seq<char>)
    ensures
        error_text(ConnectErrorView::MalformedRequestLine(s)) == "malformed HTTP request line: "@
            + debug_text(s),
        error_text(ConnectErrorView::MethodNotSupported(s))
            == "only CONNECT is supported, client sent "@ + debug_text(s),
        error_text(ConnectErrorView::TargetHasControlBytes(s))
            == "CONNECT target contains control or whitespace bytes — "@ + debug_text(s),
        error_text(ConnectErrorView::TargetNotAuthority(s))
            == "CONNECT target is not a valid host:port authority — "@ + debug_text(s),
        error_text(ConnectErrorView::AuthFailed(s)) == "HTTP auth failed for user "@ + debug_text(
            s,
        ),
        error_text(ConnectErrorView::UnsupportedScheme)
            == "unsupported Proxy-Authorization scheme"@,
        error_text(ConnectErrorView::Base64Invalid) == "Proxy-Authorization base64 decode failed"@,
        error_text(ConnectErrorView::CredentialsNotUtf8) == "Proxy-Authorization not valid UTF-8"@,
        error_text(ConnectErrorView::MissingColon) == "Proxy-Authorization missing ':'"@,
{
}

/// A value that is no text is refused, and so is one that says nothing of
/// `Basic`.
pub proof fn other_values_are_refused(head: Seq<u8>, value: Seq<u8>)
    requires
        first_credentials_field(field_lines(head)) == Some(value),
    ensures
        !valid_utf8(value) ==> credentials_of(head) == Err::<
            Option<CredentialsView>,
            ConnectErrorView,
        >(ConnectErrorView::CredentialsFieldNotUtf8),
        valid_utf8(value) && basic_token(decode_utf8(value)) is None ==> credentials_of(head)
            == Err::<Option<CredentialsView>, ConnectErrorView>(
            ConnectErrorView::UnsupportedScheme,
        ),
        valid_utf8(value) ==> (basic_token(decode_utf8(value)) matches Some(token) ==> match (
            credentials_of(head),
            base64_standard(token),
        ) {
            (Ok(Some(c)), Some(bytes)) => valid_utf8(bytes) && !c.user.contains(':') && c.user
                + seq![':'] + c.password == decode_utf8(bytes),
            (Ok(_), _) => false,
            (Err(e), None) => e == ConnectErrorView::Base64Invalid,
            (Err(e), Some(bytes)) => if !valid_utf8(bytes) {
                e == ConnectErrorView::CredentialsNotUtf8
            } else {
                e == ConnectErrorView::MissingColon && !decode_utf8(bytes).contains(':')
            },
        }),
{
    if valid_utf8(value) {
        if let Some(token) = basic_token(decode_utf8(value)) {
            if let Some(bytes) = base64_standard(token) {
                if valid_utf8(bytes) {
                    credentials_are_the_decoded_text(bytes);
                }
            }
        }
    }
}

} // verus!
