//! Small text helpers on `str`, stated over the sequence of characters.

use vstd::prelude::*;
use vstd::utf8::{decode_utf8, valid_utf8};

verus! {

/// `String::push` appends one character to the end of the string.
pub assume_specification[ String::push ](s: &mut String, c: char)
    ensures
        final(s)@ == old(s)@.push(c),
;

/// Calls `core::str::from_utf8`: the bytes as text if and only if they are
/// valid UTF-8.
#[verifier::external_body]
pub(crate) fn text_from_utf8(bytes: &[u8]) -> (r: Option<&str>)
    ensures
        r is Some <==> valid_utf8(bytes@),
        r matches Some(s) ==> s@ == decode_utf8(bytes@),
{
    core::str::from_utf8(bytes).ok()
}

/// The text that `{:?}` writes for a string slice.
pub uninterp spec fn debug_text(s: Seq<char>) -> Seq<char>;

/// Calls `format!("{:?}", s)`, std's quoted and escaped rendering of a string
/// slice. Its escaping table is long, so the result is only named.
#[verifier::external_body]
pub(crate) fn debug_quoted(s: &str) -> (r: String)
    ensures
        r@ == debug_text(s@),
{
    format!("{:?}", s)
}

/// The characters of a string.
pub fn chars_of(s: &str) -> (v: Vec<char>)
    ensures
        v@ == s@,
{
    let mut v: Vec<char> = Vec::new();
    for c in it: s.chars()
        invariant
            it.seq() == s@,
            v@ == s@.take(it.index() as int),
    {
        v.push(c);
    }
    assert(s@.take(s@.len() as int) =~= s@);
    v
}

/// The text of `a` followed by that of `b`.
pub fn join(a: &str, b: &str) -> (r: String)
    ensures
        r@ == a@ + b@,
{
    let mut s = a.to_owned();
    s.append(b);
    s
}

/// The digit for a value below 16.
pub open spec fn digit_char(d: nat) -> char {
    if d < 10 {
        ('0' as u32 + d) as char
    } else {
        ('a' as u32 + d - 10) as char
    }
}

/// A number in positional notation, without leading zeros.
pub open spec fn number_text(n: nat, base: nat) -> Seq<char>
    decreases n,
    when base >= 2
{
    if n < base {
        seq![digit_char(n)]
    } else {
        proof {
            assert(n / base < n) by (nonlinear_arith)
                requires
                    base >= 2,
                    n >= base,
            ;
        }
        number_text(n / base, base).push(digit_char(n % base))
    }
}

/// Appends a number in positional notation.
pub fn push_number(out: &mut String, n: u64, base: u64)
    requires
        2 <= base <= 16,
    ensures
        final(out)@ == old(out)@ + number_text(n as nat, base as nat),
    decreases n,
{
    let ghost before = out@;
    if n >= base {
        assert(n / base < n) by (nonlinear_arith)
            requires
                base >= 2,
                n >= base,
        ;
        push_number(out, n / base, base);
    }
    let d: u64 = n % base;
    let c: char = if d < 10 {
        (0x30 + d as u8) as char
    } else {
        (0x61 + (d as u8 - 10)) as char
    };
    assert(d < base) by (nonlinear_arith)
        requires
            base >= 2,
            d == n % base,
    ;
    assert(c == digit_char(n as nat % base as nat));
    out.push(c);
    proof {
        if n < base {
            assert(n % base == n) by (nonlinear_arith)
                requires
                    base >= 2,
                    n < base,
            ;
        }
        assert(out@ =~= before + number_text(n as nat, base as nat));
    }
}

/// A number in decimal notation.
pub fn decimal(n: u64) -> (r: String)
    ensures
        r@ == number_text(n as nat, 10),
{
    let mut out = String::new();
    push_number(&mut out, n, 10);
    assert(out@ =~= number_text(n as nat, 10));
    out
}

/// A signed number in decimal notation.
pub open spec fn signed_text(n: int) -> Seq<char> {
    if n < 0 {
        seq!['-'] + number_text((-n) as nat, 10)
    } else {
        number_text(n as nat, 10)
    }
}

/// A signed number in decimal notation.
pub fn signed_decimal(n: i32) -> (r: String)
    ensures
        r@ == signed_text(n as int),
{
    let wide: i64 = n as i64;
    let mut out = String::new();
    if wide < 0 {
        out.push('-');
        push_number(&mut out, (-wide) as u64, 10);
    } else {
        push_number(&mut out, wide as u64, 10);
    }
    assert(out@ =~= signed_text(n as int));
    out
}

/// The first index not before `from` at which `e` stands in `s`.
pub open spec fn elem_from<A>(s: Seq<A>, e: A, from: int) -> Option<int>
    decreases s.len() - from,
{
    if from >= s.len() {
        None
    } else if s[from] == e {
        Some(from)
    } else {
        elem_from(s, e, from + 1)
    }
}

/// The first index at which `e` stands in `s`.
pub open spec fn first_of<A>(s: Seq<A>, e: A) -> Option<int> {
    elem_from(s, e, 0)
}

/// The last index at which `e` stands in `s`.
pub open spec fn last_of<A>(s: Seq<A>, e: A) -> Option<int>
    decreases s.len(),
{
    if s.len() == 0 {
        None
    } else if s.last() == e {
        Some(s.len() - 1)
    } else {
        last_of(s.drop_last(), e)
    }
}

/// `elem_from` is the least index from `from` on that holds the element.
pub proof fn lemma_elem_from<A>(s: Seq<A>, e: A, from: int)
    requires
        0 <= from,
    ensures
        match elem_from(s, e, from) {
            Some(i) => from <= i < s.len() && s[i] == e && forall|j: int|
                from <= j < i ==> s[j] != e,
            None => forall|j: int| from <= j < s.len() ==> s[j] != e,
        },
    decreases s.len() - from,
{
    if from < s.len() && s[from] != e {
        lemma_elem_from(s, e, from + 1);
    }
}

/// `last_of` is the greatest index that holds the element.
pub proof fn lemma_last_of<A>(s: Seq<A>, e: A)
    ensures
        match last_of(s, e) {
            Some(i) => 0 <= i < s.len() && s[i] == e && forall|j: int|
                i < j < s.len() ==> s[j] != e,
            None => forall|j: int| 0 <= j < s.len() ==> s[j] != e,
        },
    decreases s.len(),
{
    if s.len() > 0 && s.last() != e {
        lemma_last_of(s.drop_last(), e);
        assert forall|j: int| 0 <= j < s.len() - 1 implies s[j] == s.drop_last()[j] by {}
    }
}

/// The two sides of the first `sep` in `s`.
pub open spec fn split_first(s: Seq<char>, sep: char) -> Option<(Seq<char>, Seq<char>)> {
    match first_of(s, sep) {
        Some(i) => Some((s.take(i), s.skip(i + 1))),
        None => None,
    }
}

/// The two sides of the last `sep` in `s`.
pub open spec fn split_last(s: Seq<char>, sep: char) -> Option<(Seq<char>, Seq<char>)> {
    match last_of(s, sep) {
        Some(i) => Some((s.take(i), s.skip(i + 1))),
        None => None,
    }
}

/// A split into two slices, as its two views.
pub open spec fn both_views(r: Option<(&str, &str)>) -> Option<(Seq<char>, Seq<char>)> {
    match r {
        Some((a, b)) => Some((a@, b@)),
        None => None,
    }
}

/// Splits at the first `sep`.
pub fn split_once(s: &str, sep: char) -> (r: Option<(&str, &str)>)
    ensures
        both_views(r) == split_first(s@, sep),
{
    let v = chars_of(s);
    let mut i: usize = 0;
    while i < v.len()
        invariant
            i <= v@.len(),
            v@ == s@,
            first_of(s@, sep) == elem_from(s@, sep, i as int),
        decreases v@.len() - i,
    {
        if v[i] == sep {
            return Some((s.substring_char(0, i), s.substring_char(i + 1, v.len())));
        }
        i += 1;
    }
    None
}

/// Splits at the last `sep`.
pub fn rsplit_once(s: &str, sep: char) -> (r: Option<(&str, &str)>)
    ensures
        both_views(r) == split_last(s@, sep),
{
    let v = chars_of(s);
    let mut i: usize = v.len();
    assert(s@.take(i as int) =~= s@);
    while i > 0
        invariant
            i <= v@.len(),
            v@ == s@,
            last_of(s@, sep) == last_of(s@.take(i as int), sep),
        decreases i,
    {
        assert(s@.take(i as int).drop_last() =~= s@.take(i - 1));
        if v[i - 1] == sep {
            return Some((s.substring_char(0, i - 1), s.substring_char(i, v.len())));
        }
        i -= 1;
    }
    None
}

/// The characters with the Unicode property White_Space.
pub open spec fn is_white_space(c: char) -> bool {
    let n = c as u32;
    ||| 0x09 <= n <= 0x0d
    ||| n == 0x20
    ||| n == 0x85
    ||| n == 0xa0
    ||| n == 0x1680
    ||| 0x2000 <= n <= 0x200a
    ||| n == 0x2028
    ||| n == 0x2029
    ||| n == 0x202f
    ||| n == 0x205f
    ||| n == 0x3000
}

/// Whether a character is white space.
pub fn white_space(c: char) -> (r: bool)
    ensures
        r == is_white_space(c),
{
    let n: u32 = c as u32;
    (0x09 <= n && n <= 0x0d) || n == 0x20 || n == 0x85 || n == 0xa0 || n == 0x1680 || (0x2000 <= n
        && n <= 0x200a) || n == 0x2028 || n == 0x2029 || n == 0x202f || n == 0x205f || n == 0x3000
}

/// What is left of `s` when the leading elements that meet `p` are gone.
pub open spec fn strip_start<A>(s: Seq<A>, p: spec_fn(A) -> bool) -> Seq<A>
    decreases s.len(),
{
    if s.len() > 0 && p(s[0]) {
        strip_start(s.skip(1), p)
    } else {
        s
    }
}

/// What is left of `s` when the trailing elements that meet `p` are gone.
pub open spec fn strip_end<A>(s: Seq<A>, p: spec_fn(A) -> bool) -> Seq<A>
    decreases s.len(),
{
    if s.len() > 0 && p(s.last()) {
        strip_end(s.drop_last(), p)
    } else {
        s
    }
}

/// `s` without the leading and trailing elements that meet `p`.
pub open spec fn strip<A>(s: Seq<A>, p: spec_fn(A) -> bool) -> Seq<A> {
    strip_end(strip_start(s, p), p)
}

/// `s` without leading and trailing white space.
pub open spec fn trimmed(s: Seq<char>) -> Seq<char> {
    strip(s, |c: char| is_white_space(c))
}

/// Removes leading and trailing white space.
pub fn trim(s: &str) -> (r: &str)
    ensures
        r@ == trimmed(s@),
{
    let v = chars_of(s);
    let ghost p = |c: char| is_white_space(c);
    let mut i: usize = 0;
    assert(s@.skip(0) =~= s@);
    while i < v.len() && white_space(v[i])
        invariant
            i <= v@.len(),
            v@ == s@,
            p == (|c: char| is_white_space(c)),
            strip_start(s@, p) == strip_start(s@.skip(i as int), p),
        decreases v@.len() - i,
    {
        assert(s@.skip(i as int).skip(1) =~= s@.skip(i + 1));
        i += 1;
    }
    let ghost left = s@.skip(i as int);
    assert(strip_start(s@, p) == left);
    let mut j: usize = v.len();
    assert(s@.subrange(i as int, j as int) =~= left);
    while j > i && white_space(v[j - 1])
        invariant
            i <= j <= v@.len(),
            v@ == s@,
            p == (|c: char| is_white_space(c)),
            strip_end(left, p) == strip_end(s@.subrange(i as int, j as int), p),
        decreases j,
    {
        assert(s@.subrange(i as int, j as int).drop_last() =~= s@.subrange(i as int, j - 1));
        j -= 1;
    }
    s.substring_char(i, j)
}

/// Whether `s` begins with `prefix`.
pub fn begins_with(s: &str, prefix: &str) -> (r: bool)
    ensures
        r == prefix@.is_prefix_of(s@),
{
    let v = chars_of(s);
    let w = chars_of(prefix);
    if w.len() > v.len() {
        return false;
    }
    let mut i: usize = 0;
    while i < w.len()
        invariant
            i <= w@.len() <= v@.len(),
            v@ == s@,
            w@ == prefix@,
            forall|j: int| 0 <= j < i ==> w@[j] == v@[j],
        decreases w@.len() - i,
    {
        if v[i] != w[i] {
            assert(prefix@[i as int] != s@.subrange(0, prefix@.len() as int)[i as int]);
            return false;
        }
        i += 1;
    }
    assert(prefix@ =~= s@.subrange(0, prefix@.len() as int));
    true
}

/// The lower-case form of an ASCII letter; any other character as it is.
pub open spec fn ascii_lower(c: char) -> char {
    if 'A' <= c <= 'Z' {
        (c as u32 + 32) as char
    } else {
        c
    }
}

/// Whether two texts differ at most in the case of ASCII letters.
pub open spec fn same_but_ascii_case(a: Seq<char>, b: Seq<char>) -> bool {
    a.len() == b.len() && forall|i: int|
        0 <= i < a.len() ==> ascii_lower(a[i]) == ascii_lower(b[i])
}

/// Lower-cases an ASCII letter.
fn lower(c: char) -> (r: u32)
    ensures
        r == ascii_lower(c) as u32,
{
    if 'A' <= c && c <= 'Z' {
        c as u32 + 32
    } else {
        c as u32
    }
}

/// Compares without regard to the case of ASCII letters.
pub fn eq_ignore_ascii_case(a: &str, b: &str) -> (r: bool)
    ensures
        r == same_but_ascii_case(a@, b@),
{
    let v = chars_of(a);
    let w = chars_of(b);
    if v.len() != w.len() {
        return false;
    }
    let mut i: usize = 0;
    while i < w.len()
        invariant
            i <= w@.len() == v@.len(),
            v@ == a@,
            w@ == b@,
            forall|j: int| 0 <= j < i ==> ascii_lower(v@[j]) == ascii_lower(w@[j]),
        decreases w@.len() - i,
    {
        if lower(v[i]) != lower(w[i]) {
            return false;
        }
        i += 1;
    }
    true
}

/// Whether two strings are the same text.
pub fn same_text(a: &str, b: &str) -> (r: bool)
    ensures
        r == (a@ == b@),
{
    let v = chars_of(a);
    let w = chars_of(b);
    if v.len() != w.len() {
        return false;
    }
    let mut i: usize = 0;
    while i < w.len()
        invariant
            i <= w@.len() == v@.len(),
            v@ == a@,
            w@ == b@,
            forall|j: int| 0 <= j < i ==> v@[j] == w@[j],
        decreases w@.len() - i,
    {
        if v[i] != w[i] {
            return false;
        }
        i += 1;
    }
    assert(a@ =~= b@);
    true
}

/// A text is the two sides of the first separator with the separator between
/// them, and the left side holds no separator.
pub proof fn first_split_cuts_the_text(s: Seq<char>, sep: char)
    ensures
        match split_first(s, sep) {
            Some((left, right)) => s == left + seq![sep] + right && !left.contains(sep),
            None => !s.contains(sep),
        },
{
    lemma_elem_from(s, sep, 0);
    if let Some(i) = first_of(s, sep) {
        assert(s =~= s.take(i) + seq![sep] + s.skip(i + 1));
        assert forall|j: int| 0 <= j < s.take(i).len() implies s.take(i)[j] != sep by {
            assert(s.take(i)[j] == s[j]);
        }
    }
}

/// Two texts that are put together with a separator are found again by the
/// first separator, if the left one holds none.
pub proof fn first_split_finds_the_sides(left: Seq<char>, right: Seq<char>, sep: char)
    requires
        !left.contains(sep),
    ensures
        split_first(left + seq![sep] + right, sep) == Some((left, right)),
{
    let s = left + seq![sep] + right;
    lemma_elem_from(s, sep, 0);
    let n = left.len() as int;
    assert(s[n] == sep);
    let i = first_of(s, sep)->0;
    assert(i <= n);
    if i < n {
        assert(left[i] == s[i]);
    }
    assert(s.take(n) =~= left);
    assert(s.skip(n + 1) =~= right);
}

/// A text is the two sides of the last separator with the separator between
/// them, and the right side holds no separator.
pub proof fn last_split_cuts_the_text(s: Seq<char>, sep: char)
    ensures
        match split_last(s, sep) {
            Some((left, right)) => s == left + seq![sep] + right && !right.contains(sep),
            None => !s.contains(sep),
        },
{
    lemma_last_of(s, sep);
    if let Some(i) = last_of(s, sep) {
        assert(s =~= s.take(i) + seq![sep] + s.skip(i + 1));
        let right = s.skip(i + 1);
        assert forall|j: int| 0 <= j < right.len() implies right[j] != sep by {
            assert(right[j] == s[i + 1 + j]);
        }
    }
}

/// Two texts that are put together with a separator are found again by the
/// last separator, if the right one holds none.
pub proof fn last_split_finds_the_sides(left: Seq<char>, right: Seq<char>, sep: char)
    requires
        !right.contains(sep),
    ensures
        split_last(left + seq![sep] + right, sep) == Some((left, right)),
{
    let s = left + seq![sep] + right;
    lemma_last_of(s, sep);
    let n = left.len() as int;
    assert(s[n] == sep);
    let i = last_of(s, sep)->0;
    assert(i >= n);
    if i > n {
        assert(right[i - n - 1] == s[i]);
    }
    assert(s.take(n) =~= left);
    assert(s.skip(n + 1) =~= right);
}

/// Whether every element meets `p`.
pub open spec fn all_meet<A>(s: Seq<A>, p: spec_fn(A) -> bool) -> bool {
    forall|i: int| 0 <= i < s.len() ==> p(#[trigger] s[i])
}

/// Whether neither end of a sequence meets `p`; an empty one has no end.
pub open spec fn ends_fail<A>(s: Seq<A>, p: spec_fn(A) -> bool) -> bool {
    s.len() > 0 ==> !p(s[0]) && !p(s.last())
}

/// Stripping removes what meets `p` at both ends, all of it and nothing else.
pub proof fn strip_leaves_the_middle<A>(l: Seq<A>, e: Seq<A>, r: Seq<A>, p: spec_fn(A) -> bool)
    requires
        all_meet(l, p),
        all_meet(r, p),
        ends_fail(e, p),
    ensures
        strip(l + e + r, p) == e,
    decreases l.len() + r.len(),
{
    let s = l + e + r;
    if l.len() > 0 {
        assert(s[0] == l[0]);
        assert(s.skip(1) =~= l.skip(1) + e + r);
        assert forall|i: int| 0 <= i < l.skip(1).len() implies p(#[trigger] l.skip(1)[i]) by {
            assert(l.skip(1)[i] == l[i + 1]);
        }
        strip_leaves_the_middle(l.skip(1), e, r, p);
    } else if e.len() > 0 {
        assert(s =~= e + r);
        assert(s[0] == e[0]);
        lemma_strip_end(e, r, p);
    } else {
        assert(s =~= r);
        lemma_strip_start_all(r, p);
        assert(e =~= seq![]);
    }
}

/// Stripping the end removes the tail that meets `p`.
proof fn lemma_strip_end<A>(e: Seq<A>, r: Seq<A>, p: spec_fn(A) -> bool)
    requires
        e.len() > 0,
        !p(e.last()),
        all_meet(r, p),
    ensures
        strip_end(e + r, p) == e,
    decreases r.len(),
{
    let s = e + r;
    if r.len() > 0 {
        assert(s.last() == r.last());
        assert(p(r[r.len() - 1]));
        assert(s.drop_last() =~= e + r.drop_last());
        assert forall|i: int| 0 <= i < r.drop_last().len() implies p(
            #[trigger] r.drop_last()[i],
        ) by {
            assert(r.drop_last()[i] == r[i]);
        }
        lemma_strip_end(e, r.drop_last(), p);
    } else {
        assert(s =~= e);
    }
}

/// Nothing is left of a sequence all of which meets `p`.
proof fn lemma_strip_start_all<A>(r: Seq<A>, p: spec_fn(A) -> bool)
    requires
        all_meet(r, p),
    ensures
        strip_start(r, p) == Seq::<A>::empty(),
    decreases r.len(),
{
    if r.len() > 0 {
        assert(p(r[0]));
        assert forall|i: int| 0 <= i < r.skip(1).len() implies p(#[trigger] r.skip(1)[i]) by {
            assert(r.skip(1)[i] == r[i + 1]);
        }
        lemma_strip_start_all(r.skip(1), p);
    } else {
        assert(r =~= Seq::<A>::empty());
    }
}

/// What is stripped off met `p`, and what is left begins and ends otherwise.
pub proof fn strip_cuts_the_ends<A>(s: Seq<A>, p: spec_fn(A) -> bool) -> (sides: (Seq<A>, Seq<A>))
    ensures
        s == sides.0 + strip(s, p) + sides.1,
        all_meet(sides.0, p),
        all_meet(sides.1, p),
        ends_fail(strip(s, p), p),
    decreases s.len(),
{
    if s.len() == 0 {
        assert(s =~= Seq::<A>::empty() + strip(s, p) + Seq::<A>::empty());
        (Seq::<A>::empty(), Seq::<A>::empty())
    } else if p(s[0]) {
        let (l, r) = strip_cuts_the_ends(s.skip(1), p);
        let left = seq![s[0]] + l;
        assert(strip(s, p) == strip(s.skip(1), p));
        assert(s =~= seq![s[0]] + s.skip(1));
        assert(s =~= left + strip(s, p) + r);
        assert forall|i: int| 0 <= i < left.len() implies p(#[trigger] left[i]) by {
            if i > 0 {
                assert(left[i] == l[i - 1]);
            }
        }
        (left, r)
    } else if p(s.last()) {
        let (l, r) = strip_cuts_the_ends(s.drop_last(), p);
        assert(s.drop_last()[0] == s[0]);
        let right = r + seq![s.last()];
        assert(strip_start(s, p) == s);
        assert(strip_start(s.drop_last(), p) == s.drop_last());
        assert(strip(s, p) == strip(s.drop_last(), p));
        assert(s =~= s.drop_last() + seq![s.last()]);
        assert(s =~= l + strip(s, p) + right);
        assert forall|i: int| 0 <= i < right.len() implies p(#[trigger] right[i]) by {
            if i < r.len() {
                assert(right[i] == r[i]);
            }
        }
        (l, right)
    } else {
        assert(s =~= Seq::<A>::empty() + strip(s, p) + Seq::<A>::empty());
        (Seq::<A>::empty(), Seq::<A>::empty())
    }
}

/// The white space of Unicode, character by character.
pub proof fn white_space_is_that_of_unicode(c: char)
    ensures
        is_white_space(c) <==> ("\t\n\u{b}\u{c}\r \u{85}\u{a0}\u{1680}\u{2000}\u{2001}\u{2002}\u{2003}\u{2004}\u{2005}\u{2006}\u{2007}\u{2008}\u{2009}\u{200a}\u{2028}\u{2029}\u{202f}\u{205f}\u{3000}"@).contains(
            c,
        ),
{
    reveal_strlit(
        "\t\n\u{b}\u{c}\r \u{85}\u{a0}\u{1680}\u{2000}\u{2001}\u{2002}\u{2003}\u{2004}\u{2005}\u{2006}\u{2007}\u{2008}\u{2009}\u{200a}\u{2028}\u{2029}\u{202f}\u{205f}\u{3000}",
    );
    let all = "\t\n\u{b}\u{c}\r \u{85}\u{a0}\u{1680}\u{2000}\u{2001}\u{2002}\u{2003}\u{2004}\u{2005}\u{2006}\u{2007}\u{2008}\u{2009}\u{200a}\u{2028}\u{2029}\u{202f}\u{205f}\u{3000}"@;
    let n = c as u32;
    if is_white_space(c) {
        let i: int = if n <= 0x0d {
            n - 0x09
        } else if n == 0x20 {
            5
        } else if n == 0x85 {
            6
        } else if n == 0xa0 {
            7
        } else if n == 0x1680 {
            8
        } else if n <= 0x200a {
            9 + (n - 0x2000)
        } else if n == 0x2028 {
            20
        } else if n == 0x2029 {
            21
        } else if n == 0x202f {
            22
        } else if n == 0x205f {
            23
        } else {
            24
        };
        assert(all[i] == c);
    }
}

/// Trimming gives back a text that white space was put around.
pub proof fn trim_gives_back_the_text(l: Seq<char>, e: Seq<char>, r: Seq<char>)
    requires
        all_meet(l, |c: char| is_white_space(c)),
        all_meet(r, |c: char| is_white_space(c)),
        ends_fail(e, |c: char| is_white_space(c)),
    ensures
        trimmed(l + e + r) == e,
{
    strip_leaves_the_middle(l, e, r, |c: char| is_white_space(c));
}

/// The value of a digit.
pub open spec fn digit_value(c: char) -> int {
    if '0' <= c <= '9' {
        c as u32 - '0' as u32
    } else {
        c as u32 - 'a' as u32 + 10
    }
}

/// The number that digits write.
pub open spec fn value_of(s: Seq<char>, base: nat) -> int
    decreases s.len(),
{
    if s.len() == 0 {
        0
    } else {
        value_of(s.drop_last(), base) * base + digit_value(s.last())
    }
}

/// The text of a number has its value, in digits of the base and without
/// leading zeros.
pub proof fn number_text_has_its_value(n: nat, base: nat)
    requires
        2 <= base <= 16,
    ensures
        value_of(number_text(n, base), base) == n,
        number_text(n, base).len() > 0,
        number_text(n, base).len() > 1 ==> number_text(n, base)[0] != '0',
        n > 0 ==> number_text(n, base)[0] != '0',
        forall|i: int|
            0 <= i < number_text(n, base).len() ==> {
                let c = #[trigger] number_text(n, base)[i];
                ('0' <= c <= '9' || 'a' <= c <= 'f') && 0 <= digit_value(c) < base
            },
    decreases n,
{
    assert forall|d: nat| d < 16 implies digit_value(#[trigger] digit_char(d)) == d && ('0'
        <= digit_char(d) <= '9' || 'a' <= digit_char(d) <= 'f') && (d > 0 ==> digit_char(d)
        != '0') by {}
    let s = number_text(n, base);
    if n < base {
        assert(s.drop_last() =~= seq![]);
        assert(value_of(s.drop_last(), base) == 0);
        assert(0 * base == 0) by (nonlinear_arith);
    } else {
        let q = n / base;
        let d = n % base;
        assert(q < n && q >= 1 && d < base && n == q * base + d) by (nonlinear_arith)
            requires
                base >= 2,
                n >= base,
                q == n / base,
                d == n % base,
        ;
        number_text_has_its_value(q, base);
        let start = number_text(q, base);
        assert(s == start.push(digit_char(d)));
        assert(s.drop_last() =~= start);
        assert(s[0] == start[0]);
        assert forall|i: int| 0 <= i < s.len() implies {
            let c = #[trigger] s[i];
            ('0' <= c <= '9' || 'a' <= c <= 'f') && 0 <= digit_value(c) < base
        } by {
            if i < start.len() {
                assert(s[i] == start[i]);
            }
        }
    }
}

/// Only the case of the letters from `A` to `Z` is passed over.
pub proof fn only_ascii_case_is_passed_over(a: Seq<char>, b: Seq<char>)
    ensures
        same_but_ascii_case(a, b) <==> a.len() == b.len() && forall|i: int|
            0 <= i < a.len() ==> {
                ||| #[trigger] a[i] == b[i]
                ||| 'A' <= a[i] <= 'Z' && b[i] as u32 == a[i] as u32 + 32
                ||| 'A' <= b[i] <= 'Z' && a[i] as u32 == b[i] as u32 + 32
            },
{
    if a.len() == b.len() {
        assert forall|i: int| 0 <= i < a.len() implies (ascii_lower(a[i]) == ascii_lower(b[i])
            <==> ({
            ||| #[trigger] a[i] == b[i]
            ||| 'A' <= a[i] <= 'Z' && b[i] as u32 == a[i] as u32 + 32
            ||| 'A' <= b[i] <= 'Z' && a[i] as u32 == b[i] as u32 + 32
        })) by {
            lemma_lower_is(a[i], b[i]);
        }
        if same_but_ascii_case(a, b) {
            assert forall|i: int| 0 <= i < a.len() implies ({
                ||| #[trigger] a[i] == b[i]
                ||| 'A' <= a[i] <= 'Z' && b[i] as u32 == a[i] as u32 + 32
                ||| 'A' <= b[i] <= 'Z' && a[i] as u32 == b[i] as u32 + 32
            }) by {
                assert(ascii_lower(a[i]) == ascii_lower(b[i]));
            }
        }
    }
}

/// When two characters have one lower-case form.
proof fn lemma_lower_is(a: char, b: char)
    ensures
        ascii_lower(a) == ascii_lower(b) <==> ({
            ||| a == b
            ||| 'A' <= a <= 'Z' && b as u32 == a as u32 + 32
            ||| 'A' <= b <= 'Z' && a as u32 == b as u32 + 32
        }),
{
    assert('A' <= a <= 'Z' ==> ascii_lower(a) as u32 == a as u32 + 32);
    assert('A' <= b <= 'Z' ==> ascii_lower(b) as u32 == b as u32 + 32);
    assert(ascii_lower(a) == ascii_lower(b) <==> ascii_lower(a) as u32 == ascii_lower(b) as u32);
    assert(a == b <==> a as u32 == b as u32);
}

/// A number is written with its digits, and a minus sign before them exactly if
/// it is negative.
pub proof fn signed_text_has_its_value(n: int)
    ensures
        n >= 0 ==> value_of(signed_text(n), 10) == n,
        n < 0 ==> signed_text(n)[0] == '-' && value_of(signed_text(n).skip(1), 10) == -n,
{
    if n < 0 {
        number_text_has_its_value((-n) as nat, 10);
        assert(signed_text(n).skip(1) =~= number_text((-n) as nat, 10));
    } else {
        number_text_has_its_value(n as nat, 10);
    }
}

} // verus!
