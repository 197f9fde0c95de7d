//! Character-level string helpers the rest of the library builds on:
//! equality, prefix tests, prefix stripping and uniform quoting.

use vstd::prelude::*;
use vstd::string::StrSliceExecFns;
use vstd::string::StringExecFns;

verus! {

/// View of an optional borrowed string.
pub open spec fn opt_view(o: Option<&str>) -> Option<Seq<char>> {
    match o {
        None => None,
        Some(s) => Some(s@),
    }
}

/// True when `p` is a prefix of `s`.
pub open spec fn has_prefix(s: Seq<char>, p: Seq<char>) -> bool {
    p.len() <= s.len() && s.subrange(0, p.len() as int) == p
}

/// `s` wrapped in double quotes, so that a path with spaces survives the
/// shell that re-reads the assembled command.
pub open spec fn quoted(s: Seq<char>) -> Seq<char> {
    "\""@ + s + "\""@
}

/// Character-for-character equality of two string slices.
pub fn str_eq(a: &str, b: &str) -> (r: bool)
    ensures
        r == (a@ == b@),
{
    let alen = a.unicode_len();
    let blen = b.unicode_len();
    if alen != blen {
        return false;
    }
    let mut i: usize = 0;
    while i < alen
        invariant
            i <= alen,
            alen == a@.len(),
            alen == b@.len(),
            forall|j: int| 0 <= j < i ==> a@[j] == b@[j],
        decreases alen - i,
    {
        if a.get_char(i) != b.get_char(i) {
            return false;
        }
        i = i + 1;
    }
    proof {
        assert(a@ =~= b@);
    }
    true
}

/// Whether `s` starts with `p`.
pub fn str_has_prefix(s: &str, p: &str) -> (r: bool)
    ensures
        r == has_prefix(s@, p@),
{
    let slen = s.unicode_len();
    let plen = p.unicode_len();
    if plen > slen {
        return false;
    }
    let mut i: usize = 0;
    while i < plen
        invariant
            i <= plen,
            plen == p@.len(),
            slen == s@.len(),
            plen <= slen,
            forall|j: int| 0 <= j < i ==> s@[j] == p@[j],
        decreases plen - i,
    {
        if s.get_char(i) != p.get_char(i) {
            proof {
                assert(s@.subrange(0, p@.len() as int)[i as int] != p@[i as int]);
            }
            return false;
        }
        i = i + 1;
    }
    proof {
        assert(s@.subrange(0, p@.len() as int) =~= p@);
    }
    true
}

/// What is left of `s` after a prefix of length `n` is removed.
pub fn strip_prefix_len<'a>(s: &'a str, n: usize) -> (r: &'a str)
    requires
        n <= s@.len(),
    ensures
        r@ == s@.skip(n as int),
{
    let slen = s.unicode_len();
    let r = s.substring_char(n, slen);
    proof {
        assert(s@.subrange(n as int, s@.len() as int) =~= s@.skip(n as int));
    }
    r
}

/// `s` wrapped in double quotes.
pub fn quote(s: &str) -> (r: String)
    ensures
        r@ == quoted(s@),
{
    let mut r = "\"".to_owned();
    r.append(s);
    r.append("\"");
    r
}

/// A bind-mount directive: `-v "host":"container"`, both paths quoted.
pub open spec fn spec_mount_frag(host: Seq<char>, container: Seq<char>) -> Seq<char> {
    "-v "@ + quoted(host) + ":"@ + quoted(container)
}

/// Builds the bind-mount directive for a host and a container path.
pub fn mount_frag(host: &str, container: &str) -> (r: String)
    ensures
        r@ == spec_mount_frag(host@, container@),
{
    let mut r = "-v ".to_owned();
    r.append(quote(host).as_str());
    r.append(":");
    r.append(quote(container).as_str());
    proof {
        assert(r@ =~= spec_mount_frag(host@, container@));
    }
    r
}

/// An environment export directive: `-e NAME="value"`, the value quoted.
pub open spec fn spec_export_frag(name: Seq<char>, value: Seq<char>) -> Seq<char> {
    "-e "@ + name + "="@ + quoted(value)
}

/// Builds the environment export directive for a name and a value.
pub fn export_frag(name: &str, value: &str) -> (r: String)
    ensures
        r@ == spec_export_frag(name@, value@),
{
    let mut r = "-e ".to_owned();
    r.append(name);
    r.append("=");
    r.append(quote(value).as_str());
    proof {
        assert(r@ =~= spec_export_frag(name@, value@));
    }
    r
}

} // verus!
