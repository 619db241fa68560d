//! Windows paths as NUL-terminated UTF-16, with the verbatim prefix that long
//! paths need.

use vstd::prelude::*;
use vstd::slice::{slice_subrange, slice_to_vec};

verus! {

/// Paths of this many units or more get a verbatim prefix.
pub const LONG_PATH_UNITS: usize = 248;

/// The prefix of an absolute path.
#[derive(Clone, Copy, Debug, PartialEq, Eq, Structural)]
pub enum PathPrefix {
    /// `C:`
    Disk,
    /// `\\server\share`
    Unc,
    /// Any other, or none.
    Other,
}

/// What a path needs before it is handed to the operating system.
#[derive(Debug)]
pub enum WidePath {
    /// The path cannot be passed: it holds a NUL.
    HasNul,
    /// The path can be passed as it is, with the terminator.
    Ready(Vec<u16>),
    /// The path has to be made absolute first: a verbatim prefix switches off
    /// the handling of slashes and dots.
    NeedsAbsolute,
}

/// `\\?\`
pub open spec fn verbatim_prefix() -> Seq<u16> {
    seq![0x5cu16, 0x5cu16, 0x3fu16, 0x5cu16]
}

/// `\??\`
pub open spec fn nt_prefix() -> Seq<u16> {
    seq![0x5cu16, 0x3fu16, 0x3fu16, 0x5cu16]
}

/// `\\?\UNC\`
pub open spec fn verbatim_unc_prefix() -> Seq<u16> {
    seq![0x5cu16, 0x5cu16, 0x3fu16, 0x5cu16, 0x55u16, 0x4eu16, 0x43u16, 0x5cu16]
}

/// Whether a path is passed on without being made absolute.
pub open spec fn is_final(units: Seq<u16>) -> bool {
    units.len() == 0 || verbatim_prefix().is_prefix_of(units) || nt_prefix().is_prefix_of(units)
}

/// Whether the path begins with these four units.
fn begins_with_units(units: &[u16], a: u16, b: u16, c: u16, d: u16) -> (r: bool)
    ensures
        r == seq![a, b, c, d].is_prefix_of(units@),
{
    if units.len() < 4 {
        return false;
    }
    let r = units[0] == a && units[1] == b && units[2] == c && units[3] == d;
    proof {
        let p = seq![a, b, c, d];
        if r {
            assert(p =~= units@.subrange(0, 4));
        } else {
            assert(p.is_prefix_of(units@) ==> p[0] == units@.subrange(0, 4)[0] && p[1]
                == units@.subrange(0, 4)[1] && p[2] == units@.subrange(0, 4)[2] && p[3]
                == units@.subrange(0, 4)[3]);
        }
    }
    r
}

/// What a path, in UTF-16, needs.
pub fn wide(encoded: Vec<u16>) -> (r: WidePath)
    ensures
        match r {
            WidePath::HasNul => encoded@.contains(0),
            WidePath::Ready(v) => !encoded@.contains(0) && is_final(encoded@) && v@
                == encoded@.push(0),
            WidePath::NeedsAbsolute => !encoded@.contains(0) && !is_final(encoded@),
        },
{
    let mut i: usize = 0;
    while i < encoded.len()
        invariant
            i <= encoded@.len(),
            forall|j: int| 0 <= j < i ==> encoded@[j] != 0,
        decreases encoded@.len() - i,
    {
        if encoded[i] == 0 {
            assert(encoded@[i as int] == 0);
            return WidePath::HasNul;
        }
        i += 1;
    }
    if encoded.len() == 0 || begins_with_units(encoded.as_slice(), 0x5c, 0x5c, 0x3f, 0x5c)
        || begins_with_units(encoded.as_slice(), 0x5c, 0x3f, 0x3f, 0x5c) {
        let mut ready = encoded;
        ready.push(0);
        return WidePath::Ready(ready);
    }
    WidePath::NeedsAbsolute
}

/// An absolute path as it is passed on: a long one with a verbatim prefix, in
/// place of the two backslashes where it names a server.
pub open spec fn wide_of(absolute: Seq<u16>, prefix: PathPrefix) -> Seq<u16> {
    let body = if absolute.len() < LONG_PATH_UNITS {
        absolute
    } else {
        match prefix {
            PathPrefix::Disk => verbatim_prefix() + absolute,
            PathPrefix::Unc => verbatim_unc_prefix() + absolute.skip(2),
            PathPrefix::Other => absolute,
        }
    };
    body.push(0)
}

/// Passes an absolute path on.
pub fn wide_absolute(absolute: &[u16], prefix: PathPrefix) -> (r: Vec<u16>)
    ensures
        r@ == wide_of(absolute@, prefix),
{
    let mut out: Vec<u16> = Vec::new();
    let mut from: usize = 0;
    if absolute.len() >= LONG_PATH_UNITS {
        match prefix {
            PathPrefix::Disk => {
                out.push(0x5c);
                out.push(0x5c);
                out.push(0x3f);
                out.push(0x5c);
            },
            PathPrefix::Unc => {
                out.push(0x5c);
                out.push(0x5c);
                out.push(0x3f);
                out.push(0x5c);
                out.push(0x55);
                out.push(0x4e);
                out.push(0x43);
                out.push(0x5c);
                from = 2;
            },
            PathPrefix::Other => {},
        }
    }
    let mut rest = slice_to_vec(slice_subrange(absolute, from, absolute.len()));
    out.append(&mut rest);
    out.push(0);
    assert(out@ =~= wide_of(absolute@, prefix));
    out
}

/// What is passed on ends in a NUL, and has no other where the path has none.
pub proof fn wide_path_is_terminated(absolute: Seq<u16>, prefix: PathPrefix, i: int)
    requires
        !absolute.contains(0),
        0 <= i < wide_of(absolute, prefix).len(),
    ensures
        wide_of(absolute, prefix)[i] == 0 <==> i == wide_of(absolute, prefix).len() - 1,
{
    assert forall|j: int| 0 <= j < absolute.len() implies absolute[j] != 0 by {
        assert(absolute.contains(absolute[j]));
    }
}

/// A short path is passed on as it is. A long one keeps every unit behind the
/// prefix that it gets; of a server path only the two leading backslashes go.
pub proof fn long_path_keeps_its_units(absolute: Seq<u16>)
    requires
        absolute.len() >= 2,
    ensures
        absolute.len() < 248 ==> wide_of(absolute, PathPrefix::Disk) == absolute + seq![0u16],
        absolute.len() < 248 ==> wide_of(absolute, PathPrefix::Unc) == absolute + seq![0u16],
        wide_of(absolute, PathPrefix::Other) == absolute + seq![0u16],
        absolute.len() >= 248 ==> wide_of(absolute, PathPrefix::Disk) == seq![
            0x5cu16,
            0x5cu16,
            0x3fu16,
            0x5cu16,
        ] + absolute + seq![0u16],
        absolute.len() >= 248 ==> wide_of(absolute, PathPrefix::Unc) == seq![
            0x5cu16,
            0x5cu16,
            0x3fu16,
            0x5cu16,
            0x55u16,
            0x4eu16,
            0x43u16,
        ] + seq![0x5cu16] + absolute.subrange(2, absolute.len() as int) + seq![0u16],
{
    assert(absolute.push(0u16) =~= absolute + seq![0u16]);
    if absolute.len() >= 248 {
        assert(wide_of(absolute, PathPrefix::Disk) =~= seq![0x5cu16, 0x5cu16, 0x3fu16, 0x5cu16]
            + absolute + seq![0u16]);
        assert(wide_of(absolute, PathPrefix::Unc) =~= seq![
            0x5cu16,
            0x5cu16,
            0x3fu16,
            0x5cu16,
            0x55u16,
            0x4eu16,
            0x43u16,
        ] + seq![0x5cu16] + absolute.subrange(2, absolute.len() as int) + seq![0u16]);
    }
}

/// Only an empty path and one that is verbatim already are passed on as given.
pub proof fn other_path_is_made_absolute(units: Seq<u16>)
    ensures
        is_final(units) <==> units.len() == 0 || (units.len() >= 4 && units[0] == 0x5c && units[2]
            == 0x3f && units[3] == 0x5c && (units[1] == 0x5c || units[1] == 0x3f)),
{
    if units.len() >= 4 {
        let w = units.subrange(0, 4);
        assert(w[0] == units[0] && w[1] == units[1] && w[2] == units[2] && w[3] == units[3]);
        if units[0] == 0x5c && units[2] == 0x3f && units[3] == 0x5c {
            if units[1] == 0x5c {
                assert(w =~= verbatim_prefix());
            }
            if units[1] == 0x3f {
                assert(w =~= nt_prefix());
            }
        }
    }
}

} // verus!
