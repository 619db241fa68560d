//! The upstream proxies.

use vstd::prelude::*;

use crate::text::{
    all_meet, ends_fail, first_split_cuts_the_text, first_split_finds_the_sides, is_white_space,
    lemma_elem_from, split_first, split_once, strip_cuts_the_ends, trim, trim_gives_back_the_text,
    trimmed,
};

verus! {

/// The file that holds the upstream proxies.
pub const PROXY_LIST_PATH: &'static str = "resocks5.proxy_list.ktav";

/// Upstream proxies by transport. An entry is a `[*]user:pass@host:port` line;
/// the `*` marks a gate.
#[derive(Debug)]
pub struct ProxyListConfig {
    /// SOCKS5 over IPv4.
    pub socks5_v4: Vec<String>,
    /// SOCKS5 over IPv6.
    pub socks5_v6: Vec<String>,
    /// HTTP CONNECT over IPv4.
    pub http_v4: Vec<String>,
    /// HTTP CONNECT over IPv6.
    pub http_v6: Vec<String>,
    /// HTTP CONNECT inside TLS over IPv4.
    pub https_v4: Vec<String>,
    /// HTTP CONNECT inside TLS over IPv6.
    pub https_v6: Vec<String>,
}

impl Default for ProxyListConfig {
    fn default() -> (r: Self)
        ensures
            r.socks5_v4@.len() == 0,
            r.socks5_v6@.len() == 0,
            r.http_v4@.len() == 0,
            r.http_v6@.len() == 0,
            r.https_v4@.len() == 0,
            r.https_v6@.len() == 0,
    {
        ProxyListConfig {
            socks5_v4: Vec::new(),
            socks5_v6: Vec::new(),
            http_v4: Vec::new(),
            http_v6: Vec::new(),
            https_v4: Vec::new(),
            https_v6: Vec::new(),
        }
    }
}

/// Texts over their views.
pub open spec fn texts(v: Seq<String>) -> Seq<Seq<char>> {
    Seq::new(v.len(), |i: int| v[i]@)
}

/// The entry on one line of a plain proxy list: the line without white space
/// around it, unless it is blank or a `#` comment.
pub open spec fn line_entry(line: Seq<char>) -> Seq<Seq<char>> {
    let entry = trimmed(line);
    if entry.len() == 0 || entry[0] == '#' {
        seq![]
    } else {
        seq![entry]
    }
}

/// The entries of a plain proxy list, one per line.
pub open spec fn proxy_entries(text: Seq<char>) -> Seq<Seq<char>>
    decreases text.len(),
{
    match split_first(text, '\n') {
        Some((line, rest)) => {
            proof {
                lemma_elem_from(text, '\n', 0);
            }
            line_entry(line) + proxy_entries(rest)
        },
        None => line_entry(text),
    }
}

/// Appends the entry on one line, if any.
fn push_entry(out: &mut Vec<String>, line: &str)
    ensures
        texts(final(out)@) == texts(old(out)@) + line_entry(line@),
{
    let entry = trim(line);
    if entry.is_empty() || entry.get_char(0) == '#' {
        assert(texts(out@) =~= texts(old(out)@) + line_entry(line@));
        return;
    }
    out.push(entry.to_owned());
    assert(texts(out@) =~= texts(old(out)@) + line_entry(line@));
}

/// Reads a plain proxy list.
pub fn parse_proxy_lines(text: &str) -> (r: Vec<String>)
    ensures
        texts(r@) == proxy_entries(text@),
{
    let mut out: Vec<String> = Vec::new();
    let mut rest: &str = text;
    assert(texts(out@) + proxy_entries(rest@) =~= proxy_entries(text@));
    loop
        invariant
            texts(out@) + proxy_entries(rest@) == proxy_entries(text@),
        decreases rest@.len(),
    {
        match split_once(rest, '\n') {
            Some((line, tail)) => {
                proof {
                    lemma_elem_from(rest@, '\n', 0);
                }
                let ghost before = texts(out@);
                push_entry(&mut out, line);
                assert(texts(out@) + proxy_entries(tail@) =~= before + proxy_entries(rest@));
                rest = tail;
            },
            None => {
                push_entry(&mut out, rest);
                return out;
            },
        }
    }
}

/// A list is read line by line: what stands above a line end and what stands
/// below it are read each for itself, in this order.
pub proof fn lists_are_read_line_by_line(above: Seq<char>, below: Seq<char>)
    ensures
        proxy_entries(above + seq!['\n'] + below) == proxy_entries(above) + proxy_entries(below),
    decreases above.len(),
{
    let text = above + seq!['\n'] + below;
    first_split_cuts_the_text(above, '\n');
    match split_first(above, '\n') {
        None => {
            first_split_finds_the_sides(above, below, '\n');
        },
        Some((line, rest)) => {
            assert(text =~= line + seq!['\n'] + (rest + seq!['\n'] + below));
            first_split_finds_the_sides(line, rest + seq!['\n'] + below, '\n');
            lists_are_read_line_by_line(rest, below);
            assert(proxy_entries(text) =~= proxy_entries(above) + proxy_entries(below));
        },
    }
}

/// No line is lost but blank ones and `#` comments: any other line is an entry,
/// without the white space around it and otherwise as it stands.
pub proof fn line_is_kept_unless_blank_or_comment(l: Seq<char>, entry: Seq<char>, r: Seq<char>)
    requires
        all_meet(l, |c: char| is_white_space(c)),
        all_meet(r, |c: char| is_white_space(c)),
        ends_fail(entry, |c: char| is_white_space(c)),
        !(l + entry + r).contains('\n'),
    ensures
        entry.len() == 0 || entry[0] == '#' ==> proxy_entries(l + entry + r) == Seq::<
            Seq<char>,
        >::empty(),
        entry.len() > 0 && entry[0] != '#' ==> proxy_entries(l + entry + r) == seq![entry],
{
    let line = l + entry + r;
    trim_gives_back_the_text(l, entry, r);
    first_split_cuts_the_text(line, '\n');
    if let Some((left, right)) = split_first(line, '\n') {
        assert(line[left.len() as int] == '\n');
    }
}

/// The entries of lines, one after the other: each line without the white space
/// around it, unless nothing is left or the rest begins with `#`.
pub open spec fn kept_lines(lines: Seq<Seq<char>>) -> Seq<Seq<char>> {
    lines.map_values(|line: Seq<char>| trimmed(line)).filter(
        |entry: Seq<char>| entry.len() > 0 && entry[0] != '#',
    )
}

/// Lines with a line end between any two.
pub open spec fn text_of_lines(lines: Seq<Seq<char>>) -> Seq<char>
    decreases lines.len(),
{
    if lines.len() <= 1 {
        if lines.len() == 0 {
            seq![]
        } else {
            lines[0]
        }
    } else {
        text_of_lines(lines.drop_last()) + seq!['\n'] + lines.last()
    }
}

/// A list has exactly the entries of its lines, in their order.
pub proof fn entries_are_the_kept_lines(lines: Seq<Seq<char>>)
    requires
        lines.len() > 0,
        forall|i: int| 0 <= i < lines.len() ==> !(#[trigger] lines[i]).contains('\n'),
    ensures
        proxy_entries(text_of_lines(lines)) == kept_lines(lines),
    decreases lines.len(),
{
    let p = |entry: Seq<char>| entry.len() > 0 && entry[0] != '#';
    let f = |line: Seq<char>| trimmed(line);
    let start = lines.drop_last();
    let last = lines.last();
    assert(!lines[lines.len() - 1].contains('\n'));
    let w = |c: char| is_white_space(c);
    let (l, r) = strip_cuts_the_ends(last, w);
    line_is_kept_unless_blank_or_comment(l, trimmed(last), r);
    assert(lines.map_values(f) =~= start.map_values(f).push(trimmed(last)));
    let heads = start.map_values(f);
    assert(heads.push(trimmed(last)).drop_last() =~= heads);
    reveal(Seq::filter);
    assert(kept_lines(lines) =~= heads.filter(p) + (if p(trimmed(last)) {
        seq![trimmed(last)]
    } else {
        seq![]
    }));
    if lines.len() == 1 {
        assert(heads =~= seq![]);
        assert(heads.filter(p) =~= seq![]);
    } else {
        assert forall|i: int| 0 <= i < start.len() implies !(#[trigger] start[i]).contains(
            '\n',
        ) by {
            assert(start[i] == lines[i]);
        }
        entries_are_the_kept_lines(start);
        lists_are_read_line_by_line(text_of_lines(start), last);
    }
    assert(proxy_entries(text_of_lines(lines)) =~= kept_lines(lines));
}

/// Texts are seen one by one, in their order.
pub proof fn texts_are_seen_one_by_one(v: Seq<String>, i: int)
    ensures
        texts(v).len() == v.len(),
        0 <= i < v.len() ==> texts(v)[i] == v[i]@,
{
}

} // verus!
