//! IPv4 addresses, CIDR networks, and the rule set that the IP restriction
//! plugin matches client addresses against.
use vstd::prelude::*;
use vstd::arithmetic::div_mod::lemma_basic_div;
use vstd::arithmetic::power2::{lemma2_to64, pow2};
use vstd::bits::lemma_u32_shr_is_div;
use crate::ipv6::{ipv6_of, net6_contains, net6_of, parse_ipv6, parse_net6, Ipv6Net};
use crate::text::{
    all_digits, decimal_text, decimal_value, lemma_decimal_below, parse_usize, quoted_list,
    quoted_text, split_on, split_text, ten_pow, text_eq, u64_text,
};

verus! {

/// A dotted-quad octet: one to three digits, no leading zero, at most 255.
pub open spec fn is_octet(s: Seq<char>) -> bool {
    1 <= s.len() <= 3 && all_digits(s) && (s.len() > 1 ==> s[0] != '0') && decimal_value(s)
        <= 255
}

/// The IPv4 address that `s` writes in dotted-quad form, as a 32-bit number.
pub open spec fn ipv4_of(s: Seq<char>) -> Option<u32> {
    let p = split_on(s, '.');
    if p.len() == 4 && is_octet(p[0]) && is_octet(p[1]) && is_octet(p[2]) && is_octet(p[3]) {
        Some(
            (decimal_value(p[0]) * 16777216 + decimal_value(p[1]) * 65536 + decimal_value(p[2])
                * 256 + decimal_value(p[3])) as u32,
        )
    } else {
        None
    }
}

/// A prefix length: one or two digits, at most 32.
pub open spec fn is_prefix_len(s: Seq<char>) -> bool {
    1 <= s.len() <= 2 && all_digits(s) && decimal_value(s) <= 32
}

/// An IPv4 network: an address and the number of leading bits that matter.
#[derive(Clone, Copy, Debug, PartialEq, Eq, Structural)]
pub struct Ipv4Net {
    pub addr: u32,
    pub prefix: u8,
}

/// The network that `s` writes as `<address>/<prefix length>`.
pub open spec fn net_of(s: Seq<char>) -> Option<Ipv4Net> {
    let p = split_on(s, '/');
    if p.len() == 2 && ipv4_of(p[0]) is Some && is_prefix_len(p[1]) {
        Some(Ipv4Net { addr: ipv4_of(p[0])->0, prefix: decimal_value(p[1]) as u8 })
    } else {
        None
    }
}

/// Whether address `a` lies in `net`: it agrees with the network's address
/// on the leading `prefix` bits.
pub open spec fn net_contains(net: Ipv4Net, a: u32) -> bool {
    a as nat / pow2((32 - net.prefix) as nat) == net.addr as nat / pow2((32 - net.prefix) as nat)
}

/// The networks among the rule entries, in order.
pub open spec fn nets_of(entries: Seq<Seq<char>>) -> Seq<Ipv4Net>
    decreases entries.len(),
{
    if entries.len() == 0 {
        Seq::empty()
    } else {
        let rest = nets_of(entries.drop_last());
        match net_of(entries.last()) {
            Some(n) => rest.push(n),
            None => rest,
        }
    }
}

/// The IPv6 networks among the rule entries (those that are no IPv4
/// network), in order, as groups and prefix length.
pub open spec fn nets6_of(entries: Seq<Seq<char>>) -> Seq<(Seq<u16>, u8)>
    decreases entries.len(),
{
    if entries.len() == 0 {
        Seq::empty()
    } else {
        let rest = nets6_of(entries.drop_last());
        if net_of(entries.last()) is None && net6_of(entries.last()) is Some {
            rest.push(net6_of(entries.last())->0)
        } else {
            rest
        }
    }
}

/// The plain addresses among the rule entries, in order, as written.
pub open spec fn literals_of(entries: Seq<Seq<char>>) -> Seq<Seq<char>>
    decreases entries.len(),
{
    if entries.len() == 0 {
        Seq::empty()
    } else {
        let rest = literals_of(entries.drop_last());
        if net_of(entries.last()) is None && net6_of(entries.last()) is None && (ipv4_of(
            entries.last(),
        ) is Some || ipv6_of(entries.last()) is Some) {
            rest.push(entries.last())
        } else {
            rest
        }
    }
}

/// A client address that is not an IP address.
#[derive(Clone, Copy, Debug, PartialEq, Eq, Structural)]
pub struct AddrParseError;

impl AddrParseError {
    pub fn to_string(&self) -> (r: String)
        ensures
            r@ == "invalid IP address syntax"@,
    {
        String::from_str("invalid IP address syntax")
    }
}

fn parse_octet(s: &str) -> (r: Option<u32>)
    ensures
        r is Some <==> is_octet(s@),
        r is Some ==> r->0 as nat == decimal_value(s@),
{
    let n = s.unicode_len();
    if n < 1 || n > 3 {
        return None;
    }
    if n > 1 && s.get_char(0) == '0' {
        return None;
    }
    match parse_usize(s) {
        Some(v) => {
            if v <= 255 {
                Some(v as u32)
            } else {
                None
            }
        },
        None => {
            proof {
                if all_digits(s@) {
                    lemma_short_decimal(s@);
                }
            }
            None
        },
    }
}

proof fn lemma_short_decimal(s: Seq<char>)
    requires
        s.len() <= 3,
        all_digits(s),
    ensures
        decimal_value(s) <= 999,
{
    lemma_decimal_below(s);
    reveal_with_fuel(ten_pow, 4);
}

/// Reads a dotted-quad IPv4 address.
pub fn parse_ipv4(s: &str) -> (r: Option<u32>)
    ensures
        r == ipv4_of(s@),
{
    let parts = split_text(s, '.');
    if parts.len() != 4 {
        return None;
    }
    let a = parse_octet(parts[0].as_str());
    let b = parse_octet(parts[1].as_str());
    let c = parse_octet(parts[2].as_str());
    let d = parse_octet(parts[3].as_str());
    match (a, b, c, d) {
        (Some(a), Some(b), Some(c), Some(d)) => Some(a * 16777216 + b * 65536 + c * 256 + d),
        _ => None,
    }
}

/// Reads a network written `<address>/<prefix length>`.
pub fn parse_net(s: &str) -> (r: Option<Ipv4Net>)
    ensures
        r == net_of(s@),
{
    let parts = split_text(s, '/');
    if parts.len() != 2 {
        return None;
    }
    let addr = parse_ipv4(parts[0].as_str());
    let text = parts[1].as_str();
    let n = text.unicode_len();
    if n < 1 || n > 2 {
        return None;
    }
    match (addr, parse_usize(text)) {
        (Some(a), Some(p)) => {
            if p <= 32 {
                Some(Ipv4Net { addr: a, prefix: p as u8 })
            } else {
                None
            }
        },
        _ => {
            proof {
                if all_digits(text@) {
                    lemma_short_decimal(text@);
                }
            }
            None
        },
    }
}

impl Ipv4Net {
    /// Whether `a` lies in this network.
    pub fn contains(&self, a: u32) -> (r: bool)
        requires
            self.prefix <= 32,
        ensures
            r == net_contains(*self, a),
    {
        if self.prefix == 0 {
            proof {
                lemma2_to64();
                lemma_basic_div(a as int, pow2(32) as int);
                lemma_basic_div(self.addr as int, pow2(32) as int);
            }
            true
        } else {
            let shift: u32 = 32 - self.prefix as u32;
            proof {
                lemma_u32_shr_is_div(a, shift);
                lemma_u32_shr_is_div(self.addr, shift);
            }
            (a >> shift) == (self.addr >> shift)
        }
    }
}

/// `net` written as `a.b.c.d/prefix`.
pub open spec fn net_text(net: Ipv4Net) -> Seq<char> {
    decimal_text(net.addr as nat / 16777216) + "."@ + decimal_text((net.addr as nat / 65536) % 256)
        + "."@ + decimal_text((net.addr as nat / 256) % 256) + "."@ + decimal_text(
        net.addr as nat % 256,
    ) + "/"@ + decimal_text(net.prefix as nat)
}

/// The networks written one after another, separated by `, `.
pub open spec fn nets_text(nets: Seq<Ipv4Net>) -> Seq<char>
    decreases nets.len(),
{
    if nets.len() == 0 {
        Seq::empty()
    } else if nets.len() == 1 {
        net_text(nets[0])
    } else {
        nets_text(nets.drop_last()) + ", "@ + net_text(nets.last())
    }
}

impl Ipv4Net {
    /// The network as `a.b.c.d/prefix`.
    pub fn to_string(&self) -> (r: String)
        ensures
            r@ == net_text(*self),
    {
        let a = self.addr;
        let s = u64_text((a / 16777216) as u64);
        let s = s.concat(".");
        let s = s.concat(u64_text(((a / 65536) % 256) as u64).as_str());
        let s = s.concat(".");
        let s = s.concat(u64_text(((a / 256) % 256) as u64).as_str());
        let s = s.concat(".");
        let s = s.concat(u64_text((a % 256) as u64).as_str());
        let s = s.concat("/");
        s.concat(u64_text(self.prefix as u64).as_str())
    }
}

/// A compiled rule set: IPv4 networks, IPv6 networks and plain addresses.
#[derive(Debug)]
pub struct IpRules {
    pub ip_net_list: Vec<Ipv4Net>,
    pub ip6_net_list: Vec<Ipv6Net>,
    pub ip_list: Vec<String>,
}

/// Whether `ip` is matched by literal addresses `lits`, IPv4 networks `nets`
/// or IPv6 networks `nets6`: `None` when it is no literal and no address.
pub open spec fn match_result(
    lits: Seq<Seq<char>>,
    nets: Seq<Ipv4Net>,
    nets6: Seq<(Seq<u16>, u8)>,
    ip: Seq<char>,
) -> Option<bool> {
    if lits.contains(ip) {
        Some(true)
    } else {
        match ipv4_of(ip) {
            Some(a) => Some(exists|i: int| 0 <= i < nets.len() && net_contains(#[trigger] nets[i], a)),
            None => match ipv6_of(ip) {
                Some(g) => Some(
                    exists|i: int|
                        0 <= i < nets6.len() && net6_contains(#[trigger] nets6[i].0, nets6[i].1, g),
                ),
                None => None,
            },
        }
    }
}

impl IpRules {
    pub open spec fn literals(&self) -> Seq<Seq<char>> {
        self.ip_list@.map_values(|x: String| x@)
    }

    /// The IPv6 networks as groups and prefix length.
    pub open spec fn nets6(&self) -> Seq<(Seq<u16>, u8)> {
        self.ip6_net_list@.map_values(|n: Ipv6Net| (n.addr@, n.prefix))
    }

    pub open spec fn wf(&self) -> bool {
        &&& forall|i: int|
            0 <= i < self.ip_net_list@.len() ==> #[trigger] self.ip_net_list@[i].prefix <= 32
        &&& forall|i: int| 0 <= i < self.ip6_net_list@.len() ==> #[trigger] self.ip6_net_list@[i].wf()
    }

    /// Whether `ip` is matched by these rules; `None` when it cannot be read.
    pub open spec fn matches(&self, ip: Seq<char>) -> Option<bool> {
        match_result(self.literals(), self.ip_net_list@, self.nets6(), ip)
    }

    /// The IPv4 networks and the plain addresses written out: networks as
    /// `a.b.c.d/prefix`, addresses quoted. IPv6 networks are not listed.
    pub fn debug_text(&self) -> (r: String)
        ensures
            r@ == "IpRules { ip_net_list: ["@ + nets_text(self.ip_net_list@) + "], ip_list: ["@
                + quoted_text(self.literals()) + "] }"@,
    {
        let mut nets = String::new();
        let n = self.ip_net_list.len();
        let mut i: usize = 0;
        while i < n
            invariant
                n == self.ip_net_list@.len(),
                i <= n,
                nets@ == nets_text(self.ip_net_list@.take(i as int)),
            decreases n - i,
        {
            proof {
                assert(self.ip_net_list@.take(i + 1).drop_last() =~= self.ip_net_list@.take(i as int));
            }
            if i > 0 {
                nets.append(", ");
            } else {
                assert(nets@ =~= Seq::<char>::empty());
            }
            nets.append(self.ip_net_list[i].to_string().as_str());
            i = i + 1;
        }
        let lits = quoted_list(&self.ip_list);
        proof {
            assert(self.ip_net_list@.take(n as int) =~= self.ip_net_list@);
        }
        let r = String::from_str("IpRules { ip_net_list: [");
        let r = r.concat(nets.as_str());
        let r = r.concat("], ip_list: [");
        let r = r.concat(lits.as_str());
        r.concat("] }")
    }

    /// Sorts each entry into the networks or the plain addresses; entries that
    /// are neither are dropped.
    pub fn new(values: &Vec<String>) -> (r: IpRules)
        ensures
            r.wf(),
            r.ip_net_list@ == nets_of(values@.map_values(|x: String| x@)),
            r.nets6() == nets6_of(values@.map_values(|x: String| x@)),
            r.literals() == literals_of(values@.map_values(|x: String| x@)),
    {
        let ghost entries = values@.map_values(|x: String| x@);
        let mut ip_net_list: Vec<Ipv4Net> = Vec::new();
        let mut ip6_net_list: Vec<Ipv6Net> = Vec::new();
        let mut ip_list: Vec<String> = Vec::new();
        let n = values.len();
        let mut i: usize = 0;
        while i < n
            invariant
                n == values@.len(),
                i <= n,
                entries == values@.map_values(|x: String| x@),
                ip_net_list@ == nets_of(entries.take(i as int)),
                ip6_net_list@.map_values(|n: Ipv6Net| (n.addr@, n.prefix)) == nets6_of(
                    entries.take(i as int),
                ),
                forall|k: int| 0 <= k < ip6_net_list@.len() ==> #[trigger] ip6_net_list@[k].wf(),
                ip_list@.map_values(|x: String| x@) == literals_of(entries.take(i as int)),
                forall|k: int| 0 <= k < ip_net_list@.len() ==> #[trigger] ip_net_list@[k].prefix
                    <= 32,
            decreases n - i,
        {
            let item = values[i].as_str();
            proof {
                assert(entries.take(i + 1).drop_last() =~= entries.take(i as int));
                assert(entries.take(i + 1).last() == item@);
            }
            match parse_net(item) {
                Some(net) => {
                    ip_net_list.push(net);
                },
                None => match parse_net6(item) {
                    Some(net6) => {
                        let ghost before = ip6_net_list@;
                        ip6_net_list.push(net6);
                        assert(ip6_net_list@.map_values(|n: Ipv6Net| (n.addr@, n.prefix))
                            =~= before.map_values(|n: Ipv6Net| (n.addr@, n.prefix)).push(
                            net6_of(item@)->0,
                        ));
                    },
                    None => {
                        if parse_ipv4(item).is_some() || parse_ipv6(item).is_some() {
                            let ghost before = ip_list@;
                            ip_list.push(values[i].clone());
                            assert(ip_list@.map_values(|x: String| x@) =~= before.map_values(
                                |x: String| x@,
                            ).push(item@));
                        }
                    },
                },
            }
            i = i + 1;
        }
        assert(entries.take(n as int) =~= entries);
        IpRules { ip_net_list, ip6_net_list, ip_list }
    }

    /// Whether `ip` is one of the plain addresses or lies in one of the
    /// networks; an error when it is neither listed nor an address.
    pub fn matched(&self, ip: &str) -> (r: Result<bool, AddrParseError>)
        requires
            self.wf(),
        ensures
            match r {
                Ok(found) => self.matches(ip@) == Some(found),
                Err(_) => self.matches(ip@) is None,
            },
    {
        let n = self.ip_list.len();
        let mut i: usize = 0;
        while i < n
            invariant
                n == self.ip_list@.len(),
                i <= n,
                forall|k: int| 0 <= k < i ==> #[trigger] self.ip_list@[k]@ != ip@,
            decreases n - i,
        {
            if text_eq(self.ip_list[i].as_str(), ip) {
                assert(self.literals()[i as int] == ip@);
                assert(self.literals().contains(ip@));
                return Ok(true);
            }
            i = i + 1;
        }
        assert(!self.literals().contains(ip@)) by {
            if self.literals().contains(ip@) {
                let k = choose|k: int| 0 <= k < self.literals().len() && self.literals()[k] == ip@;
                assert(self.ip_list@[k]@ == ip@);
            }
        }
        let addr = match parse_ipv4(ip) {
            Some(a) => a,
            None => {
                return match parse_ipv6(ip) {
                    Some(g) => Ok(self.matched6(&g, Ghost(ip@))),
                    None => Err(AddrParseError),
                };
            },
        };
        let m = self.ip_net_list.len();
        let mut j: usize = 0;
        while j < m
            invariant
                m == self.ip_net_list@.len(),
                j <= m,
                self.wf(),
                !self.literals().contains(ip@),
                ipv4_of(ip@) == Some(addr),
                forall|k: int| 0 <= k < j ==> !net_contains(#[trigger] self.ip_net_list@[k], addr),
            decreases m - j,
        {
            if self.ip_net_list[j].contains(addr) {
                assert(net_contains(self.ip_net_list@[j as int], addr));
                return Ok(true);
            }
            j = j + 1;
        }
        Ok(false)
    }

    fn matched6(&self, g: &Vec<u16>, ip: Ghost<Seq<char>>) -> (r: bool)
        requires
            self.wf(),
            ipv6_of(ip@) == Some(g@),
        ensures
            r == exists|i: int|
                0 <= i < self.nets6().len() && net6_contains(
                    #[trigger] self.nets6()[i].0,
                    self.nets6()[i].1,
                    g@,
                ),
    {
        proof {
            crate::ipv6::lemma_ipv6_len(ip@);
        }
        let m = self.ip6_net_list.len();
        let mut j: usize = 0;
        while j < m
            invariant
                m == self.ip6_net_list@.len(),
                j <= m,
                self.wf(),
                g@.len() == 8,
                forall|k: int|
                    0 <= k < j ==> !net6_contains(
                        #[trigger] self.nets6()[k].0,
                        self.nets6()[k].1,
                        g@,
                    ),
            decreases m - j,
        {
            if self.ip6_net_list[j].contains(g) {
                assert(net6_contains(self.nets6()[j as int].0, self.nets6()[j as int].1, g@));
                return true;
            }
            j = j + 1;
        }
        false
    }
}

} // verus!
