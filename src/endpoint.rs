//! Network endpoints as plain values, and the host part of an address text.
use vstd::prelude::*;

verus! {

/// A resolved socket address: the IP address as an integer (an IPv4 address
/// occupies the low 32 bits) and the port.
#[derive(Clone, Copy, Debug, PartialEq, Eq, Structural, Hash)]
pub struct Endpoint {
    pub v6: bool,
    pub ip: u128,
    pub port: u16,
}

impl Endpoint {
    pub fn v4(octets: [u8; 4], port: u16) -> (r: Endpoint)
        ensures
            !r.v6,
            r.port == port,
            r.ip == octets[0] as int * 0x1000000 + octets[1] as int * 0x10000
                + octets[2] as int * 0x100 + octets[3] as int,
    {
        let ip: u128 = (octets[0] as u128) * 0x1000000 + (octets[1] as u128) * 0x10000
            + (octets[2] as u128) * 0x100 + (octets[3] as u128);
        Endpoint { v6: false, ip, port }
    }
}

/// The characters of `s` before the first occurrence of `c` (all of `s` when
/// `c` does not occur).
pub open spec fn before(s: Seq<char>, c: char) -> Seq<char>
    decreases s.len(),
{
    if s.len() == 0 {
        s
    } else if s[0] == c {
        Seq::empty()
    } else {
        seq![s[0]] + before(s.drop_first(), c)
    }
}

/// The host part of an address written `host:port`, `host`, or `[v6]:port`:
/// for a bracketed address the text between the brackets, otherwise the text
/// before the first colon.
pub open spec fn host_of(s: Seq<char>) -> Seq<char> {
    if s.len() > 0 && s[0] == '[' && before(s.drop_first(), ']').len() < s.len() - 1 {
        before(s.drop_first(), ']')
    } else {
        before(s, ':')
    }
}

proof fn lemma_before_prefix(s: Seq<char>, c: char, k: int)
    requires
        0 <= k <= s.len(),
        forall|j: int| 0 <= j < k ==> s[j] != c,
        k == s.len() || s[k] == c,
    ensures
        before(s, c) == s.subrange(0, k),
    decreases s.len(),
{
    if s.len() == 0 {
        assert(s.subrange(0, 0) =~= s);
    } else if s[0] == c {
        assert(s.subrange(0, 0) =~= Seq::<char>::empty());
    } else {
        lemma_before_prefix(s.drop_first(), c, k - 1);
        assert(seq![s[0]] + s.drop_first().subrange(0, k - 1) =~= s.subrange(0, k));
    }
}

/// Index of the first `c` in `s` at or after `from`, or the length of `s`.
fn find_char(s: &str, c: char, from: usize) -> (r: usize)
    requires
        from <= s@.len(),
    ensures
        from <= r <= s@.len(),
        forall|j: int| from <= j < r ==> s@[j] != c,
        r == s@.len() || s@[r as int] == c,
{
    let n = s.unicode_len();
    let mut i: usize = from;
    while i < n
        invariant
            n == s@.len(),
            from <= i <= n,
            forall|j: int| from <= j < i ==> s@[j] != c,
        decreases n - i,
    {
        if s.get_char(i) == c {
            return i;
        }
        i = i + 1;
    }
    i
}

/// The host part of an address text (see `host_of`): the server name that a
/// tunnel announces when none is configured.
pub fn host_portion(addr: &str) -> (r: String)
    ensures
        r@ == host_of(addr@),
{
    let n = addr.unicode_len();
    if n > 0 && addr.get_char(0) == '[' {
        let close = find_char(addr, ']', 1);
        proof {
            let t = addr@.drop_first();
            assert forall|j: int| 0 <= j < close - 1 implies t[j] != ']' by {
                assert(t[j] == addr@[j + 1]);
            }
            lemma_before_prefix(t, ']', close - 1);
        }
        if close < n {
            let r = addr.substring_char(1, close).to_owned();
            proof {
                assert(r@ =~= addr@.drop_first().subrange(0, close - 1));
            }
            return r;
        }
    }
    let colon = find_char(addr, ':', 0);
    proof {
        lemma_before_prefix(addr@, ':', colon as int);
    }
    addr.substring_char(0, colon).to_owned()
}

} // verus!
