//! IPv6 addresses as eight 16-bit groups, and IPv6 networks.
use vstd::prelude::*;
use vstd::arithmetic::power2::pow2;
use vstd::bits::lemma_u16_shr_is_div;
use crate::text::{all_digits, decimal_value, lemma_decimal_below, parse_usize, split_on, split_text, ten_pow};

verus! {

pub open spec fn is_hex_digit(c: char) -> bool {
    ('0' <= c && c <= '9') || ('a' <= c && c <= 'f') || ('A' <= c && c <= 'F')
}

pub open spec fn hex_digit_value(c: char) -> nat {
    if '0' <= c && c <= '9' {
        (c as nat - '0' as nat) as nat
    } else if 'a' <= c && c <= 'f' {
        (c as nat - 'a' as nat + 10) as nat
    } else {
        (c as nat - 'A' as nat + 10) as nat
    }
}

/// The number that a string of hexadecimal digits denotes.
pub open spec fn hex_value(s: Seq<char>) -> nat
    decreases s.len(),
{
    if s.len() == 0 {
        0
    } else {
        hex_value(s.drop_last()) * 16 + hex_digit_value(s.last())
    }
}

/// A group of an IPv6 address: one to four hexadecimal digits.
pub open spec fn is_group(s: Seq<char>) -> bool {
    1 <= s.len() <= 4 && forall|i: int| 0 <= i < s.len() ==> is_hex_digit(#[trigger] s[i])
}

pub open spec fn all_groups(p: Seq<Seq<char>>) -> bool {
    forall|i: int| 0 <= i < p.len() ==> is_group(#[trigger] p[i])
}

pub open spec fn group_values(p: Seq<Seq<char>>) -> Seq<u16> {
    p.map_values(|t: Seq<char>| hex_value(t) as u16)
}

pub open spec fn zeros(n: nat) -> Seq<u16> {
    Seq::new(n, |i: int| 0u16)
}

/// The index of the first empty piece, or the number of pieces.
pub open spec fn first_empty(p: Seq<Seq<char>>) -> nat
    decreases p.len(),
{
    if p.len() == 0 || p[0].len() == 0 {
        0
    } else {
        1 + first_empty(p.drop_first())
    }
}

/// The eight groups of the IPv6 address that `s` writes: eight groups
/// separated by `:`, or fewer with one `::` standing for the missing zero
/// groups.
pub open spec fn ipv6_of(s: Seq<char>) -> Option<Seq<u16>> {
    let p = split_on(s, ':');
    let n = p.len();
    if all_groups(p) {
        if n == 8 {
            Some(group_values(p))
        } else {
            None
        }
    } else if n >= 3 && p[0].len() == 0 && p[1].len() == 0 {
        if n == 3 && p[2].len() == 0 {
            Some(zeros(8))
        } else if all_groups(p.subrange(2, n as int)) && n - 2 <= 7 {
            Some(zeros((8 - (n - 2)) as nat) + group_values(p.subrange(2, n as int)))
        } else {
            None
        }
    } else if n >= 3 && p[n - 2].len() == 0 && p[n - 1].len() == 0 {
        if all_groups(p.subrange(0, n - 2)) && n - 2 <= 7 {
            Some(group_values(p.subrange(0, n - 2)) + zeros((8 - (n - 2)) as nat))
        } else {
            None
        }
    } else {
        let k = first_empty(p) as int;
        if 0 < k < n - 1 && n - 1 <= 7 && all_groups(p.subrange(0, k)) && all_groups(
            p.subrange(k + 1, n as int),
        ) {
            Some(
                group_values(p.subrange(0, k)) + zeros((8 - (n - 1)) as nat) + group_values(
                    p.subrange(k + 1, n as int),
                ),
            )
        } else {
            None
        }
    }
}

/// An address read from text always has eight groups.
pub proof fn lemma_ipv6_len(s: Seq<char>)
    requires
        ipv6_of(s) is Some,
    ensures
        (ipv6_of(s)->0).len() == 8,
{
}

/// An IPv6 network: eight address groups and the number of leading bits that
/// matter.
#[derive(Debug, Clone)]
pub struct Ipv6Net {
    pub addr: Vec<u16>,
    pub prefix: u8,
}

/// A prefix length of an IPv6 network: one to three digits, at most 128.
pub open spec fn is_prefix6_len(s: Seq<char>) -> bool {
    1 <= s.len() <= 3 && all_digits(s) && decimal_value(s) <= 128
}

/// The IPv6 network that `s` writes as `<address>/<prefix length>`, as its
/// groups and prefix length.
pub open spec fn net6_of(s: Seq<char>) -> Option<(Seq<u16>, u8)> {
    let p = split_on(s, '/');
    if p.len() == 2 && ipv6_of(p[0]) is Some && is_prefix6_len(p[1]) {
        Some((ipv6_of(p[0])->0, decimal_value(p[1]) as u8))
    } else {
        None
    }
}

/// Whether the address with groups `a` agrees with `addr` on the leading
/// `prefix` bits.
pub open spec fn net6_contains(addr: Seq<u16>, prefix: u8, a: Seq<u16>) -> bool {
    let q = prefix as int / 16;
    let r = prefix as int % 16;
    &&& forall|i: int| 0 <= i < q ==> #[trigger] a[i] == addr[i]
    &&& r > 0 ==> a[q] as nat / pow2((16 - r) as nat) == addr[q] as nat / pow2((16 - r) as nat)
}

fn parse_group(t: &str) -> (r: Option<u16>)
    ensures
        r is Some <==> is_group(t@),
        r is Some ==> r->0 as nat == hex_value(t@),
{
    let n = t.unicode_len();
    if n < 1 || n > 4 {
        return None;
    }
    let mut v: u32 = 0;
    let mut i: usize = 0;
    while i < n
        invariant
            n == t@.len(),
            1 <= n <= 4,
            i <= n,
            forall|j: int| 0 <= j < i ==> is_hex_digit(#[trigger] t@[j]),
            v as nat == hex_value(t@.take(i as int)),
            v < pow16(i as nat),
        decreases n - i,
    {
        let c = t.get_char(i);
        proof {
            assert(t@.take(i + 1).drop_last() =~= t@.take(i as int));
            assert(t@.take(i + 1).last() == c);
        }
        let d: u32 = if '0' <= c && c <= '9' {
            c as u32 - '0' as u32
        } else if 'a' <= c && c <= 'f' {
            c as u32 - 'a' as u32 + 10
        } else if 'A' <= c && c <= 'F' {
            c as u32 - 'A' as u32 + 10
        } else {
            return None;
        };
        proof {
            assert(v * 16 + d < pow16((i + 1) as nat)) by (nonlinear_arith)
                requires
                    v < pow16(i as nat),
                    d < 16,
                    pow16((i + 1) as nat) == 16 * pow16(i as nat),
            ;
            reveal_with_fuel(pow16, 5);
            lemma_pow16_grows((i + 1) as nat, 4);
        }
        v = v * 16 + d;
        i = i + 1;
    }
    proof {
        assert(t@.take(n as int) =~= t@);
        reveal_with_fuel(pow16, 5);
        lemma_pow16_grows(n as nat, 4);
    }
    Some(v as u16)
}

pub open spec fn pow16(n: nat) -> nat
    decreases n,
{
    if n == 0 {
        1
    } else {
        16 * pow16((n - 1) as nat)
    }
}

proof fn lemma_pow16_grows(a: nat, b: nat)
    requires
        a <= b,
    ensures
        pow16(a) <= pow16(b),
    decreases b - a,
{
    if a < b {
        lemma_pow16_grows(a, (b - 1) as nat);
    }
}

/// The groups of pieces `lo..hi`, if every one of them is a group.
fn groups_in(parts: &Vec<String>, lo: usize, hi: usize) -> (r: Option<Vec<u16>>)
    requires
        lo <= hi <= parts@.len(),
    ensures
        r is Some <==> all_groups(parts@.map_values(|x: String| x@).subrange(lo as int, hi as int)),
        r is Some ==> r->0@ == group_values(
            parts@.map_values(|x: String| x@).subrange(lo as int, hi as int),
        ),
{
    let ghost p = parts@.map_values(|x: String| x@).subrange(lo as int, hi as int);
    let mut out: Vec<u16> = Vec::new();
    let mut i: usize = lo;
    while i < hi
        invariant
            lo <= i <= hi <= parts@.len(),
            p == parts@.map_values(|x: String| x@).subrange(lo as int, hi as int),
            out@.len() == i - lo,
            forall|j: int| 0 <= j < i - lo ==> is_group(#[trigger] p[j]),
            forall|j: int| 0 <= j < i - lo ==> #[trigger] out@[j] == hex_value(p[j]) as u16,
        decreases hi - i,
    {
        match parse_group(parts[i].as_str()) {
            Some(g) => {
                out.push(g);
            },
            None => {
                assert(!is_group(p[i - lo]));
                return None;
            },
        }
        i = i + 1;
    }
    assert(out@ =~= group_values(p));
    Some(out)
}

fn push_zeros(v: &mut Vec<u16>, k: usize)
    ensures
        final(v)@ == old(v)@ + zeros(k as nat),
{
    let mut i: usize = 0;
    while i < k
        invariant
            i <= k,
            v@ == old(v)@ + zeros(i as nat),
        decreases k - i,
    {
        v.push(0);
        assert(old(v)@ + zeros((i + 1) as nat) =~= (old(v)@ + zeros(i as nat)).push(0u16));
        i = i + 1;
    }
}

proof fn lemma_first_empty(p: Seq<Seq<char>>, k: int)
    requires
        0 <= k <= p.len(),
        forall|j: int| 0 <= j < k ==> #[trigger] p[j].len() > 0,
        k < p.len() ==> p[k].len() == 0,
    ensures
        first_empty(p) == k,
    decreases k,
{
    if k > 0 {
        lemma_first_empty(p.drop_first(), k - 1);
    }
}

/// Reads an IPv6 address written with colons, as its eight groups.
pub fn parse_ipv6(s: &str) -> (r: Option<Vec<u16>>)
    ensures
        r is Some <==> ipv6_of(s@) is Some,
        r is Some ==> r->0@ == ipv6_of(s@)->0,
{
    let parts = split_text(s, ':');
    let ghost p = split_on(s@, ':');
    proof {
        assert(parts@.map_values(|x: String| x@) =~= p);
        assert(p.subrange(0, p.len() as int) =~= p);
    }
    let n = parts.len();
    if let Some(g) = groups_in(&parts, 0, n) {
        if n == 8 {
            return Some(g);
        }
        return None;
    }
    if n >= 3 && parts[0].as_str().unicode_len() == 0 && parts[1].as_str().unicode_len() == 0 {
        if n == 3 && parts[2].as_str().unicode_len() == 0 {
            let mut z: Vec<u16> = Vec::new();
            push_zeros(&mut z, 8);
            assert(z@ =~= zeros(8));
            return Some(z);
        }
        if n - 2 > 7 {
            return None;
        }
        match groups_in(&parts, 2, n) {
            Some(mut t) => {
                let mut z: Vec<u16> = Vec::new();
                push_zeros(&mut z, 8 - (n - 2));
                z.append(&mut t);
                assert(z@ =~= zeros((8 - (n - 2)) as nat) + group_values(p.subrange(2, n as int)));
                return Some(z);
            },
            None => {
                return None;
            },
        }
    }
    if n >= 3 && parts[n - 2].as_str().unicode_len() == 0 && parts[n - 1].as_str().unicode_len()
        == 0 {
        if n - 2 > 7 {
            return None;
        }
        match groups_in(&parts, 0, n - 2) {
            Some(mut h) => {
                push_zeros(&mut h, 8 - (n - 2));
                return Some(h);
            },
            None => {
                return None;
            },
        }
    }
    let mut k: usize = 0;
    while k < n && parts[k].as_str().unicode_len() > 0
        invariant
            k <= n,
            n == p.len(),
            parts@.map_values(|x: String| x@) == p,
            forall|j: int| 0 <= j < k ==> #[trigger] p[j].len() > 0,
        decreases n - k,
    {
        k = k + 1;
    }
    proof {
        lemma_first_empty(p, k as int);
    }
    if k == 0 || k >= n || n - k < 2 || n > 8 {
        return None;
    }
    match (groups_in(&parts, 0, k), groups_in(&parts, k + 1, n)) {
        (Some(mut h), Some(mut t)) => {
            push_zeros(&mut h, 8 - (n - 1));
            h.append(&mut t);
            Some(h)
        },
        _ => None,
    }
}

/// Reads an IPv6 network written `<address>/<prefix length>`.
pub fn parse_net6(s: &str) -> (r: Option<Ipv6Net>)
    ensures
        r is Some <==> net6_of(s@) is Some,
        r matches Some(net) ==> net6_of(s@)->0 == (net.addr@, net.prefix) && net.wf(),
{
    let parts = split_text(s, '/');
    if parts.len() != 2 {
        return None;
    }
    let text = parts[1].as_str();
    let n = text.unicode_len();
    if n < 1 || n > 3 {
        return None;
    }
    match (parse_ipv6(parts[0].as_str()), parse_usize(text)) {
        (Some(a), Some(p)) => {
            if p <= 128 {
                proof {
                    lemma_ipv6_len(parts@[0]@);
                }
                Some(Ipv6Net { addr: a, prefix: p as u8 })
            } else {
                None
            }
        },
        _ => {
            proof {
                if all_digits(text@) {
                    lemma_decimal_below(text@);
                    reveal_with_fuel(ten_pow, 4);
                }
            }
            None
        },
    }
}

impl Ipv6Net {
    pub open spec fn wf(&self) -> bool {
        self.addr@.len() == 8 && self.prefix <= 128
    }

    /// Whether the address with groups `a` lies in this network.
    pub fn contains(&self, a: &Vec<u16>) -> (r: bool)
        requires
            self.wf(),
            a@.len() == 8,
        ensures
            r == net6_contains(self.addr@, self.prefix, a@),
    {
        let q: usize = (self.prefix / 16) as usize;
        let rem: u16 = (self.prefix % 16) as u16;
        let mut i: usize = 0;
        while i < q
            invariant
                q == self.prefix as int / 16,
                q <= 8,
                i <= q,
                self.addr@.len() == 8,
                a@.len() == 8,
                forall|j: int| 0 <= j < i ==> #[trigger] a@[j] == self.addr@[j],
            decreases q - i,
        {
            if a[i] != self.addr[i] {
                return false;
            }
            i = i + 1;
        }
        if rem == 0 {
            return true;
        }
        let shift: u16 = 16 - rem;
        proof {
            lemma_u16_shr_is_div(a@[q as int], shift);
            lemma_u16_shr_is_div(self.addr@[q as int], shift);
        }
        (a[q] >> shift) == (self.addr[q] >> shift)
    }
}

} // verus!
