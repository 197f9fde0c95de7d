//! Classification of the container-engine endpoint override.
//!
//! The override is a free-form environment string. Exactly one class applies
//! to every value: a unix-socket URL, a TCP URL, a bare IPv4 address (with an
//! optional port), or an unrecognized scheme; an absent override selects the
//! platform's default socket. The grammar for addresses is spelled out here
//! and the classifier is proved against it.

use vstd::prelude::*;
use vstd::string::StrSliceExecFns;

use crate::strutil::has_prefix;
use crate::strutil::opt_view;
use crate::strutil::str_has_prefix;
use crate::strutil::strip_prefix_len;

verus! {

/// A decimal digit.
pub open spec fn is_digit(c: char) -> bool {
    ('0' as u32) <= (c as u32) && (c as u32) <= ('9' as u32)
}

/// Every character of `s` is a decimal digit.
pub open spec fn all_digits(s: Seq<char>) -> bool {
    forall|i: int| 0 <= i < s.len() ==> is_digit(#[trigger] s[i])
}

/// The number that a digit string denotes, most significant digit first.
pub open spec fn dec_value(s: Seq<char>) -> int
    decreases s.len(),
{
    if s.len() == 0 {
        0
    } else {
        dec_value(s.drop_last()) * 10 + ((s.last() as u32) - ('0' as u32))
    }
}

/// Ten to the `n`th power.
pub open spec fn pow10(n: nat) -> int
    decreases n,
{
    if n == 0 {
        1
    } else {
        10 * pow10((n - 1) as nat)
    }
}

/// A digit string of length `n` denotes a value below `pow10(n)`.
pub proof fn lemma_dec_value_bound(s: Seq<char>)
    requires
        all_digits(s),
    ensures
        0 <= dec_value(s) < pow10(s.len()),
    decreases s.len(),
{
    if s.len() > 0 {
        lemma_dec_value_bound(s.drop_last());
    }
}

/// One octet of a dotted-quad address: one to three digits, no leading zero,
/// value at most 255.
pub open spec fn is_octet(s: Seq<char>) -> bool {
    &&& 1 <= s.len() <= 3
    &&& all_digits(s)
    &&& (s.len() > 1 ==> s[0] != '0')
    &&& dec_value(s) <= 255
}

/// A port number: one to five digits whose value fits in sixteen bits.
/// Leading zeros are accepted.
pub open spec fn is_port(s: Seq<char>) -> bool {
    &&& 1 <= s.len() <= 5
    &&& all_digits(s)
    &&& dec_value(s) <= 65535
}

/// `a`, `b` and `c` are the three dots of a dotted-quad split of `s`, with a
/// well-formed octet between each pair.
pub open spec fn ipv4_split(s: Seq<char>, a: int, b: int, c: int) -> bool {
    &&& 0 < a < b < c < s.len()
    &&& s[a] == '.' && s[b] == '.' && s[c] == '.'
    &&& is_octet(s.subrange(0, a))
    &&& is_octet(s.subrange(a + 1, b))
    &&& is_octet(s.subrange(b + 1, c))
    &&& is_octet(s.subrange(c + 1, s.len() as int))
}

/// A bare IPv4 address in dotted-quad form.
pub open spec fn is_ipv4(s: Seq<char>) -> bool {
    exists|a: int, b: int, c: int| ipv4_split(s, a, b, c)
}

/// `k` is the colon of an `address:port` split of `s`.
pub open spec fn sock_split(s: Seq<char>, k: int) -> bool {
    &&& 0 < k < s.len()
    &&& s[k] == ':'
    &&& is_ipv4(s.subrange(0, k))
    &&& is_port(s.subrange(k + 1, s.len() as int))
}

/// An IPv4 address followed by a colon and a port.
pub open spec fn is_sock_addr(s: Seq<char>) -> bool {
    exists|k: int| sock_split(s, k)
}

/// Checks that `s[from..to]` is a well-formed octet.
fn check_octet(s: &str, from: usize, to: usize) -> (r: bool)
    requires
        from <= to <= s@.len(),
    ensures
        r == is_octet(s@.subrange(from as int, to as int)),
{
    let ghost seg = s@.subrange(from as int, to as int);
    let n = to - from;
    if n < 1 || n > 3 {
        return false;
    }
    let mut i = from;
    let mut val: u32 = 0;
    while i < to
        invariant
            from <= i <= to,
            to <= s@.len(),
            to - from <= 3,
            seg == s@.subrange(from as int, to as int),
            all_digits(s@.subrange(from as int, i as int)),
            val == dec_value(s@.subrange(from as int, i as int)),
            val < 1000,
        decreases to - i,
    {
        let ghost pre = s@.subrange(from as int, i as int);
        let c = s.get_char(i);
        let cv = c as u32;
        if cv < '0' as u32 || cv > '9' as u32 {
            proof {
                assert(seg[i - from] == s@[i as int]);
            }
            return false;
        }
        proof {
            let ext = s@.subrange(from as int, i + 1);
            assert(ext.drop_last() =~= pre);
            assert(ext.last() == s@[i as int]);
            lemma_dec_value_bound(pre);
            assert(pre.len() <= 2);
            assert(pow10(pre.len()) <= 100) by {
                reveal_with_fuel(pow10, 4);
            }
        }
        val = val * 10 + (cv - '0' as u32);
        i = i + 1;
        proof {
            let ext = s@.subrange(from as int, i as int);
            assert(all_digits(ext)) by {
                assert(forall|j: int| 0 <= j < ext.len() - 1 ==> ext[j] == pre[j]);
            }
            lemma_dec_value_bound(ext);
            assert(pow10(ext.len()) <= 1000) by {
                reveal_with_fuel(pow10, 5);
            }
        }
    }
    proof {
        assert(seg =~= s@.subrange(from as int, i as int));
    }
    if n > 1 && s.get_char(from) == '0' {
        proof {
            assert(seg[0] == s@[from as int]);
        }
        return false;
    }
    val <= 255
}

/// Checks that `s[from..to]` is a well-formed port number.
fn check_port(s: &str, from: usize, to: usize) -> (r: bool)
    requires
        from <= to <= s@.len(),
    ensures
        r == is_port(s@.subrange(from as int, to as int)),
{
    let ghost seg = s@.subrange(from as int, to as int);
    let n = to - from;
    if n < 1 || n > 5 {
        return false;
    }
    let mut i = from;
    let mut val: u32 = 0;
    while i < to
        invariant
            from <= i <= to,
            to <= s@.len(),
            to - from <= 5,
            seg == s@.subrange(from as int, to as int),
            all_digits(s@.subrange(from as int, i as int)),
            val == dec_value(s@.subrange(from as int, i as int)),
            val < 100000,
        decreases to - i,
    {
        let ghost pre = s@.subrange(from as int, i as int);
        let c = s.get_char(i);
        let cv = c as u32;
        if cv < '0' as u32 || cv > '9' as u32 {
            proof {
                assert(seg[i - from] == s@[i as int]);
            }
            return false;
        }
        proof {
            let ext = s@.subrange(from as int, i + 1);
            assert(ext.drop_last() =~= pre);
            assert(ext.last() == s@[i as int]);
            lemma_dec_value_bound(pre);
            assert(pre.len() <= 4);
            assert(pow10(pre.len()) <= 10000) by {
                reveal_with_fuel(pow10, 6);
            }
        }
        val = val * 10 + (cv - '0' as u32);
        i = i + 1;
        proof {
            let ext = s@.subrange(from as int, i as int);
            assert(all_digits(ext)) by {
                assert(forall|j: int| 0 <= j < ext.len() - 1 ==> ext[j] == pre[j]);
            }
            lemma_dec_value_bound(ext);
            assert(pow10(ext.len()) <= 100000) by {
                reveal_with_fuel(pow10, 7);
            }
        }
    }
    proof {
        assert(seg =~= s@.subrange(from as int, i as int));
    }
    val <= 65535
}

/// Inside a dotted-quad split every character is a digit or one of the three
/// dots.
proof fn lemma_split_chars(s: Seq<char>, a: int, b: int, c: int)
    requires
        ipv4_split(s, a, b, c),
    ensures
        forall|j: int| 0 <= j < s.len() ==> j == a || j == b || j == c || is_digit(#[trigger] s[j]),
{
    assert forall|j: int| 0 <= j < s.len() implies j == a || j == b || j == c || is_digit(
        #[trigger] s[j],
    ) by {
        if j < a {
            assert(s.subrange(0, a)[j] == s[j]);
        } else if a < j < b {
            assert(s.subrange(a + 1, b)[j - (a + 1)] == s[j]);
        } else if b < j < c {
            assert(s.subrange(b + 1, c)[j - (b + 1)] == s[j]);
        } else if c < j {
            assert(s.subrange(c + 1, s.len() as int)[j - (c + 1)] == s[j]);
        }
    }
}

/// A well-formed address string has no character besides digits, dots and
/// the one colon of an `address:port` form; in particular its first
/// character is a digit.
pub proof fn lemma_addr_starts_with_digit(s: Seq<char>)
    requires
        is_ipv4(s) || is_sock_addr(s),
    ensures
        s.len() > 0,
        is_digit(s[0]),
{
    if is_ipv4(s) {
        let (a, b, c) = choose|a: int, b: int, c: int| ipv4_split(s, a, b, c);
        assert(s.subrange(0, a)[0] == s[0]);
    } else {
        let k = choose|k: int| sock_split(s, k);
        let p = s.subrange(0, k);
        let (a, b, c) = choose|a: int, b: int, c: int| ipv4_split(p, a, b, c);
        assert(p.subrange(0, a)[0] == p[0]);
        assert(p[0] == s[0]);
    }
}

/// The dots of a dotted-quad split are the only dots of the string, so the
/// split is unique.
proof fn lemma_split_dots_only(s: Seq<char>, a: int, b: int, c: int)
    requires
        ipv4_split(s, a, b, c),
    ensures
        forall|j: int| 0 <= j < s.len() && #[trigger] s[j] == '.' ==> j == a || j == b || j == c,
{
    lemma_split_chars(s, a, b, c);
}

/// The colon of an `address:port` split is the only colon of the string.
proof fn lemma_sock_colon_only(s: Seq<char>, k: int)
    requires
        sock_split(s, k),
    ensures
        forall|j: int| 0 <= j < s.len() && #[trigger] s[j] == ':' ==> j == k,
{
    let p = s.subrange(0, k);
    let (a, b, c) = choose|a: int, b: int, c: int| ipv4_split(p, a, b, c);
    lemma_split_chars(p, a, b, c);
    assert forall|j: int| 0 <= j < s.len() && #[trigger] s[j] == ':' implies j == k by {
        if j < k {
            assert(p[j] == s[j]);
            assert(j == a || j == b || j == c || is_digit(p[j]));
        } else if k < j {
            assert(s.subrange(k + 1, s.len() as int)[j - (k + 1)] == s[j]);
        }
    }
}

/// A strictly increasing sequence that contains `x < y < z` and holds
/// nothing else is exactly `[x, y, z]`.
proof fn lemma_sorted_three(dots: Seq<usize>, x: usize, y: usize, z: usize)
    requires
        forall|k1: int, k2: int| 0 <= k1 < k2 < dots.len() ==> dots[k1] < dots[k2],
        forall|k: int|
            0 <= k < dots.len() ==> #[trigger] dots[k] == x || dots[k] == y || dots[k] == z,
        dots.contains(x),
        dots.contains(y),
        dots.contains(z),
        x < y < z,
    ensures
        dots =~= seq![x, y, z],
{
    let kx = choose|k: int| 0 <= k < dots.len() && dots[k] == x;
    let ky = choose|k: int| 0 <= k < dots.len() && dots[k] == y;
    let kz = choose|k: int| 0 <= k < dots.len() && dots[k] == z;
    assert(kx != ky && ky != kz && kx != kz);
    assert(dots.len() >= 3);
    if dots.len() > 3 {
        assert(dots[0] < dots[1] < dots[2] < dots[3]);
        assert(false);
    }
    assert(kx < ky) by {
        if ky < kx {
            assert(dots[ky] < dots[kx]);
        }
    }
    assert(ky < kz) by {
        if kz < ky {
            assert(dots[kz] < dots[ky]);
        }
    }
    assert(kx == 0 && ky == 1 && kz == 2);
}

/// Decides whether `s` is a dotted-quad IPv4 address.
pub fn is_ipv4_str(s: &str) -> (r: bool)
    ensures
        r == is_ipv4(s@),
{
    let len = s.unicode_len();
    let mut dots: Vec<usize> = Vec::new();
    let mut i: usize = 0;
    while i < len
        invariant
            i <= len,
            len == s@.len(),
            forall|k: int|
                0 <= k < dots@.len() ==> #[trigger] dots@[k] < i && s@[dots@[k] as int] == '.',
            forall|k1: int, k2: int| 0 <= k1 < k2 < dots@.len() ==> dots@[k1] < dots@[k2],
            forall|j: int| 0 <= j < i && #[trigger] s@[j] == '.' ==> dots@.contains(j as usize),
        decreases len - i,
    {
        let c = s.get_char(i);
        let ghost pre_dots = dots@;
        if c == '.' {
            dots.push(i);
        }
        i = i + 1;
        proof {
            assert forall|j: int| 0 <= j < i && #[trigger] s@[j] == '.' implies dots@.contains(
                j as usize,
            ) by {
                if j < i - 1 {
                    let k = choose|k: int| 0 <= k < pre_dots.len() && pre_dots[k] == j as usize;
                    assert(dots@[k] == j as usize);
                } else {
                    assert(dots@[pre_dots.len() as int] == j as usize);
                }
            }
        }
    }
    proof {
        if is_ipv4(s@) {
            let (x, y, z) = choose|x: int, y: int, z: int| ipv4_split(s@, x, y, z);
            lemma_split_dots_only(s@, x, y, z);
            assert forall|k: int| 0 <= k < dots@.len() implies #[trigger] dots@[k] == x as usize
                || dots@[k] == y as usize || dots@[k] == z as usize by {
                assert(s@[dots@[k] as int] == '.');
            }
            assert(dots@.contains(x as usize));
            assert(dots@.contains(y as usize));
            assert(dots@.contains(z as usize));
            lemma_sorted_three(dots@, x as usize, y as usize, z as usize);
            assert(dots@.len() == 3);
            assert(dots@[0] == x as usize && dots@[1] == y as usize && dots@[2] == z as usize);
        }
    }
    if dots.len() != 3 {
        return false;
    }
    let a = dots[0];
    let b = dots[1];
    let c = dots[2];
    let ok = check_octet(s, 0, a) && check_octet(s, a + 1, b) && check_octet(s, b + 1, c)
        && check_octet(s, c + 1, len);
    proof {
        if ok {
            assert(ipv4_split(s@, a as int, b as int, c as int));
        }
    }
    ok
}

/// Decides whether `s` is an IPv4 address followed by a colon and a port.
pub fn is_sock_addr_str(s: &str) -> (r: bool)
    ensures
        r == is_sock_addr(s@),
{
    let len = s.unicode_len();
    let mut colons: Vec<usize> = Vec::new();
    let mut i: usize = 0;
    while i < len
        invariant
            i <= len,
            len == s@.len(),
            forall|k: int|
                0 <= k < colons@.len() ==> #[trigger] colons@[k] < i && s@[colons@[k] as int]
                    == ':',
            forall|k1: int, k2: int| 0 <= k1 < k2 < colons@.len() ==> colons@[k1] < colons@[k2],
            forall|j: int| 0 <= j < i && #[trigger] s@[j] == ':' ==> colons@.contains(j as usize),
        decreases len - i,
    {
        let c = s.get_char(i);
        let ghost pre_colons = colons@;
        if c == ':' {
            colons.push(i);
        }
        i = i + 1;
        proof {
            assert forall|j: int| 0 <= j < i && #[trigger] s@[j] == ':' implies colons@.contains(
                j as usize,
            ) by {
                if j < i - 1 {
                    let k = choose|k: int|
                        0 <= k < pre_colons.len() && pre_colons[k] == j as usize;
                    assert(colons@[k] == j as usize);
                } else {
                    assert(colons@[pre_colons.len() as int] == j as usize);
                }
            }
        }
    }
    proof {
        if is_sock_addr(s@) {
            let k = choose|k: int| sock_split(s@, k);
            lemma_sock_colon_only(s@, k);
            assert forall|j: int| 0 <= j < colons@.len() implies #[trigger] colons@[j] == k
                as usize by {
                assert(s@[colons@[j] as int] == ':');
            }
            assert(colons@.contains(k as usize));
            if colons@.len() >= 2 {
                assert(colons@[0] < colons@[1]);
                assert(false);
            }
            assert(colons@.len() == 1);
            assert(colons@[0] == k as usize);
        }
    }
    if colons.len() != 1 {
        return false;
    }
    let k = colons[0];
    let prefix = s.substring_char(0, k);
    let ok = is_ipv4_str(prefix) && check_port(s, k + 1, len);
    proof {
        if ok {
            lemma_addr_starts_with_digit(prefix@);
            assert(sock_split(s@, k as int));
        }
    }
    ok
}

/// The scheme prefix of a unix-socket endpoint.
pub open spec fn spec_unix_prefix() -> Seq<char> {
    "unix://"@
}

/// The scheme prefix of a TCP endpoint.
pub open spec fn spec_tcp_prefix() -> Seq<char> {
    "tcp://"@
}

/// The platform's default local engine socket.
pub open spec fn spec_default_socket() -> Seq<char> {
    "/var/run/docker.sock"@
}

/// The class of an endpoint override, at the specification level.
pub enum EndpointClass {
    /// No override: the default local socket is bind-mounted.
    Default,
    /// A unix-socket URL; the payload is the socket path, scheme stripped.
    UnixSocket(Seq<char>),
    /// A TCP URL; the payload is the whole override, scheme included.
    TcpEndpoint(Seq<char>),
    /// A bare IPv4 address or `address:port`; the payload is the override.
    RawAddress(Seq<char>),
    /// Anything else; the payload is the raw override, kept for diagnostics.
    Unrecognized(Seq<char>),
}

/// The endpoint the launcher resolved from the override variable.
pub enum HostEndpoint {
    Default,
    UnixSocket(String),
    TcpEndpoint(String),
    RawAddress(String),
    Unrecognized(String),
}

impl View for HostEndpoint {
    type V = EndpointClass;

    open spec fn view(&self) -> EndpointClass {
        match self {
            HostEndpoint::Default => EndpointClass::Default,
            HostEndpoint::UnixSocket(p) => EndpointClass::UnixSocket(p@),
            HostEndpoint::TcpEndpoint(a) => EndpointClass::TcpEndpoint(a@),
            HostEndpoint::RawAddress(r) => EndpointClass::RawAddress(r@),
            HostEndpoint::Unrecognized(v) => EndpointClass::Unrecognized(v@),
        }
    }
}

/// How a present override string is classified: the unix scheme wins, then
/// the TCP scheme, then a bare address form; everything else is
/// unrecognized.
pub open spec fn spec_classify(s: Seq<char>) -> EndpointClass {
    if has_prefix(s, spec_unix_prefix()) {
        EndpointClass::UnixSocket(s.skip(spec_unix_prefix().len() as int))
    } else if has_prefix(s, spec_tcp_prefix()) {
        EndpointClass::TcpEndpoint(s)
    } else if is_ipv4(s) || is_sock_addr(s) {
        EndpointClass::RawAddress(s)
    } else {
        EndpointClass::Unrecognized(s)
    }
}

/// Classification of the optional override variable.
pub open spec fn spec_classify_opt(v: Option<Seq<char>>) -> EndpointClass {
    match v {
        None => EndpointClass::Default,
        Some(s) => spec_classify(s),
    }
}

/// Classifies the endpoint override, `None` standing for an absent
/// variable.
pub fn classify_endpoint(value: Option<&str>) -> (e: HostEndpoint)
    ensures
        e@ == spec_classify_opt(opt_view(value)),
{
    match value {
        None => HostEndpoint::Default,
        Some(v) => {
            if str_has_prefix(v, "unix://") {
                let plen = "unix://".unicode_len();
                let path = strip_prefix_len(v, plen);
                HostEndpoint::UnixSocket(path.to_owned())
            } else if str_has_prefix(v, "tcp://") {
                HostEndpoint::TcpEndpoint(v.to_owned())
            } else if is_ipv4_str(v) {
                HostEndpoint::RawAddress(v.to_owned())
            } else if is_sock_addr_str(v) {
                HostEndpoint::RawAddress(v.to_owned())
            } else {
                HostEndpoint::Unrecognized(v.to_owned())
            }
        },
    }
}

/// The `DOCKER_HOST` value exported into the container for a classified
/// endpoint; `None` when the variable was absent, in which case nothing is
/// exported and the default socket is only mounted.
pub open spec fn spec_export_value(e: EndpointClass) -> Option<Seq<char>> {
    match e {
        EndpointClass::Default => None,
        EndpointClass::UnixSocket(p) => Some(spec_unix_prefix() + p),
        EndpointClass::TcpEndpoint(a) => Some(a),
        EndpointClass::RawAddress(r) => Some(spec_tcp_prefix() + r),
        EndpointClass::Unrecognized(_) => Some(spec_default_socket()),
    }
}

/// The normalized form of a present override: the value that classification
/// exports for it.
pub open spec fn spec_normalized(s: Seq<char>) -> Seq<char> {
    match spec_classify(s) {
        EndpointClass::Default => spec_default_socket(),
        EndpointClass::UnixSocket(p) => spec_unix_prefix() + p,
        EndpointClass::TcpEndpoint(a) => a,
        EndpointClass::RawAddress(r) => spec_tcp_prefix() + r,
        EndpointClass::Unrecognized(_) => spec_default_socket(),
    }
}

/// Classification is total: every override string falls in exactly one
/// class, picked by the guards below. Normalization is idempotent: the
/// value exported for an override is exported unchanged when it is itself
/// classified again, so reclassifying a normalized override keeps its
/// class.
///
/// A raw address itself normalizes to the TCP-scheme form, which then
/// classifies as a TCP endpoint; stability therefore holds of the
/// normalized value, not of the raw input's class.
pub proof fn lemma_classification_total_and_idempotent(s: Seq<char>)
    ensures
        spec_classify(s) is UnixSocket <==> has_prefix(s, spec_unix_prefix()),
        spec_classify(s) is TcpEndpoint <==> !has_prefix(s, spec_unix_prefix()) && has_prefix(
            s,
            spec_tcp_prefix(),
        ),
        spec_classify(s) is RawAddress <==> !has_prefix(s, spec_unix_prefix()) && !has_prefix(
            s,
            spec_tcp_prefix(),
        ) && (is_ipv4(s) || is_sock_addr(s)),
        spec_classify(s) is Unrecognized <==> !has_prefix(s, spec_unix_prefix()) && !has_prefix(
            s,
            spec_tcp_prefix(),
        ) && !is_ipv4(s) && !is_sock_addr(s),
        spec_export_value(spec_classify(spec_normalized(s))) == Some(spec_normalized(s)),
        spec_normalized(spec_normalized(s)) == spec_normalized(s),
        spec_classify(spec_normalized(spec_normalized(s))) == spec_classify(spec_normalized(s)),
{
    reveal_strlit("unix://");
    reveal_strlit("tcp://");
    reveal_strlit("/var/run/docker.sock");
    let n = spec_normalized(s);
    match spec_classify(s) {
        EndpointClass::Default => {
            assert(false);
        },
        EndpointClass::UnixSocket(p) => {
            assert(n.subrange(0, spec_unix_prefix().len() as int) =~= spec_unix_prefix());
            assert(n.skip(spec_unix_prefix().len() as int) =~= p);
        },
        EndpointClass::TcpEndpoint(a) => {
        },
        EndpointClass::RawAddress(r) => {
            assert(!has_prefix(n, spec_unix_prefix())) by {
                if has_prefix(n, spec_unix_prefix()) {
                    assert(n.subrange(0, spec_unix_prefix().len() as int)[0] == n[0]);
                }
            }
            assert(n.subrange(0, spec_tcp_prefix().len() as int) =~= spec_tcp_prefix());
        },
        EndpointClass::Unrecognized(_) => {
            assert(!has_prefix(n, spec_unix_prefix())) by {
                if has_prefix(n, spec_unix_prefix()) {
                    assert(n.subrange(0, spec_unix_prefix().len() as int)[0] == n[0]);
                }
            }
            assert(!has_prefix(n, spec_tcp_prefix())) by {
                if has_prefix(n, spec_tcp_prefix()) {
                    assert(n.subrange(0, spec_tcp_prefix().len() as int)[0] == n[0]);
                }
            }
            assert(!is_ipv4(n) && !is_sock_addr(n)) by {
                if is_ipv4(n) || is_sock_addr(n) {
                    lemma_addr_starts_with_digit(n);
                }
            }
        },
    }
}

} // verus!
