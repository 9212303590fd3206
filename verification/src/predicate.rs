//! Predicates: what a rule asks of a packet's headers and of its body.

use crate::addr::Ipv4Addr;
use crate::addr::Ipv4Cidr;
use crate::addr::Ipv6Addr;
use crate::addr::Ipv6Cidr;
use crate::addr::MacAddr;
use crate::ether::EtherType;
use crate::headers::IpMeta;
use crate::headers::Protocol;
use crate::packet::PacketMeta;
use crate::text::decimal;
use crate::text::decimal_string;
use crate::text::push_decimal;
use vstd::prelude::*;
use vstd::string::StringExecFns;

verus! {

/// A pattern for values of type `T`.
pub trait Matcher<T>: Sized {
    /// True when `v` fits the pattern.
    spec fn spec_matches(&self, v: T) -> bool;

    /// True when `v` fits the pattern.
    fn matches(&self, v: &T) -> (r: bool)
        ensures
            r == self.spec_matches(*v),
    ;

    /// True when `other` is the same pattern.
    fn same(&self, other: &Self) -> (r: bool)
        ensures
            r == (*self == *other),
    ;

    /// The text of the pattern.
    spec fn spec_text(&self) -> Seq<char>;

    /// The text of the pattern.
    fn text(&self) -> (r: String)
        ensures
            r@ == self.spec_text(),
    ;
}

/// A pattern for IPv4 addresses.
#[derive(Clone, Copy, Debug, PartialEq, Eq, Structural)]
pub enum Ipv4AddrMatch {
    /// This address.
    Exact(Ipv4Addr),
    /// Any address of this block.
    Prefix(Ipv4Cidr),
}

/// A pattern for IPv6 addresses.
#[derive(Clone, Copy, Debug, PartialEq, Eq, Structural)]
pub enum Ipv6AddrMatch {
    /// This address.
    Exact(Ipv6Addr),
    /// Any address of this block.
    Prefix(Ipv6Cidr),
}

/// A pattern for ports.
#[derive(Clone, Copy, Debug, PartialEq, Eq, Structural)]
pub enum PortMatch {
    /// This port.
    Exact(u16),
    /// Any port from the first to the second, both included.
    Range(u16, u16),
}

impl Matcher<Ipv4Addr> for Ipv4AddrMatch {
    open spec fn spec_matches(&self, v: Ipv4Addr) -> bool {
        match self {
            Ipv4AddrMatch::Exact(a) => *a == v,
            Ipv4AddrMatch::Prefix(c) => c.spec_contains(v),
        }
    }

    fn matches(&self, v: &Ipv4Addr) -> (r: bool) {
        match self {
            Ipv4AddrMatch::Exact(a) => *a == *v,
            Ipv4AddrMatch::Prefix(c) => c.contains(*v),
        }
    }

    fn same(&self, other: &Self) -> (r: bool) {
        *self == *other
    }

    open spec fn spec_text(&self) -> Seq<char> {
        match self {
            Ipv4AddrMatch::Exact(a) => crate::addr::ipv4_text(a@),
            Ipv4AddrMatch::Prefix(c) => c.text(),
        }
    }

    fn text(&self) -> (r: String) {
        match self {
            Ipv4AddrMatch::Exact(a) => a.to_string(),
            Ipv4AddrMatch::Prefix(c) => c.to_string(),
        }
    }
}

impl Matcher<Ipv6Addr> for Ipv6AddrMatch {
    open spec fn spec_matches(&self, v: Ipv6Addr) -> bool {
        match self {
            Ipv6AddrMatch::Exact(a) => *a == v,
            Ipv6AddrMatch::Prefix(c) => c.spec_contains(v),
        }
    }

    fn matches(&self, v: &Ipv6Addr) -> (r: bool) {
        match self {
            Ipv6AddrMatch::Exact(a) => *a == *v,
            Ipv6AddrMatch::Prefix(c) => c.contains(*v),
        }
    }

    fn same(&self, other: &Self) -> (r: bool) {
        *self == *other
    }

    open spec fn spec_text(&self) -> Seq<char> {
        match self {
            Ipv6AddrMatch::Exact(a) => crate::addr::ipv6_text(a@),
            Ipv6AddrMatch::Prefix(c) => c.text(),
        }
    }

    fn text(&self) -> (r: String) {
        match self {
            Ipv6AddrMatch::Exact(a) => a.to_string(),
            Ipv6AddrMatch::Prefix(c) => c.to_string(),
        }
    }
}

impl Matcher<u16> for PortMatch {
    open spec fn spec_matches(&self, v: u16) -> bool {
        match self {
            PortMatch::Exact(p) => *p == v,
            PortMatch::Range(lo, hi) => *lo <= v <= *hi,
        }
    }

    fn matches(&self, v: &u16) -> (r: bool) {
        match self {
            PortMatch::Exact(p) => *p == *v,
            PortMatch::Range(lo, hi) => *lo <= *v && *v <= *hi,
        }
    }

    fn same(&self, other: &Self) -> (r: bool) {
        *self == *other
    }

    open spec fn spec_text(&self) -> Seq<char> {
        match self {
            PortMatch::Exact(p) => decimal(*p as nat),
            PortMatch::Range(lo, hi) => decimal(*lo as nat) + seq!['-'] + decimal(*hi as nat),
        }
    }

    fn text(&self) -> (r: String) {
        match self {
            PortMatch::Exact(p) => decimal_string(*p as u64),
            PortMatch::Range(lo, hi) => {
                let mut out = decimal_string(*lo as u64);
                out.push('-');
                push_decimal(&mut out, *hi as u64);
                assert(out@ =~= self.spec_text());
                out
            },
        }
    }
}

impl Matcher<EtherType> for EtherType {
    open spec fn spec_matches(&self, v: EtherType) -> bool {
        *self == v
    }

    fn matches(&self, v: &EtherType) -> (r: bool) {
        *self == *v
    }

    fn same(&self, other: &Self) -> (r: bool) {
        *self == *other
    }

    open spec fn spec_text(&self) -> Seq<char> {
        match self {
            EtherType::Ipv4 => "IPv4"@,
            EtherType::Arp => "ARP"@,
            EtherType::Ipv6 => "IPv6"@,
            EtherType::Other(n) => decimal(*n as nat),
        }
    }

    fn text(&self) -> (r: String) {
        match self {
            EtherType::Ipv4 => "IPv4".to_owned(),
            EtherType::Arp => "ARP".to_owned(),
            EtherType::Ipv6 => "IPv6".to_owned(),
            EtherType::Other(n) => decimal_string(*n as u64),
        }
    }
}

impl Matcher<MacAddr> for MacAddr {
    open spec fn spec_matches(&self, v: MacAddr) -> bool {
        *self == v
    }

    fn matches(&self, v: &MacAddr) -> (r: bool) {
        *self == *v
    }

    fn same(&self, other: &Self) -> (r: bool) {
        *self == *other
    }

    open spec fn spec_text(&self) -> Seq<char> {
        MacAddr::text(*self)
    }

    fn text(&self) -> (r: String) {
        self.to_string()
    }
}

impl Matcher<Protocol> for Protocol {
    open spec fn spec_matches(&self, v: Protocol) -> bool {
        *self == v
    }

    fn matches(&self, v: &Protocol) -> (r: bool) {
        *self == *v
    }

    fn same(&self, other: &Self) -> (r: bool) {
        *self == *other
    }

    open spec fn spec_text(&self) -> Seq<char> {
        Protocol::text(*self)
    }

    fn text(&self) -> (r: String) {
        self.to_string()
    }
}

/// True when `v` fits one of the patterns of `list`.
pub open spec fn any_matches<M: Matcher<T>, T>(list: Seq<M>, v: T) -> bool {
    exists|i: int| 0 <= i < list.len() && (#[trigger] list[i]).spec_matches(v)
}

/// True when `v` fits one of the patterns of `list`.
pub fn match_any<M: Matcher<T>, T>(list: &Vec<M>, v: &T) -> (r: bool)
    ensures
        r == any_matches(list@, *v),
{
    let n = list.len();
    let mut i: usize = 0;
    while i < n
        invariant
            i <= n == list.len(),
            forall|k: int| 0 <= k < i ==> !(#[trigger] list@[k]).spec_matches(*v),
        decreases n - i,
    {
        if list[i].matches(v) {
            return true;
        }
        i = i + 1;
    }
    false
}

/// True when the two lists hold the same patterns in the same order.
pub fn same_list<M: Matcher<T>, T>(a: &Vec<M>, b: &Vec<M>) -> (r: bool)
    ensures
        r == (a@ == b@),
{
    if a.len() != b.len() {
        return false;
    }
    let n = a.len();
    let mut i: usize = 0;
    while i < n
        invariant
            i <= n == a.len(),
            n == b.len(),
            forall|k: int| 0 <= k < i ==> a@[k] == b@[k],
        decreases n - i,
    {
        if !a[i].same(&b[i]) {
            return false;
        }
        i = i + 1;
    }
    assert(a@ =~= b@);
    true
}

/// What a rule asks of a packet's inner headers. A predicate on a header that the packet
/// does not have is not met.
#[derive(Debug)]
pub enum Predicate {
    InnerEtherType(Vec<EtherType>),
    InnerEtherSrc(Vec<MacAddr>),
    InnerEtherDst(Vec<MacAddr>),
    InnerSrcIp4(Vec<Ipv4AddrMatch>),
    InnerDstIp4(Vec<Ipv4AddrMatch>),
    InnerSrcIp6(Vec<Ipv6AddrMatch>),
    InnerDstIp6(Vec<Ipv6AddrMatch>),
    InnerIpProto(Vec<Protocol>),
    InnerSrcPort(Vec<PortMatch>),
    InnerDstPort(Vec<PortMatch>),
    /// Met where the predicate inside is not.
    Not(Box<Predicate>),
}

impl Predicate {
    /// True when the headers of `meta` meet the predicate.
    pub open spec fn spec_is_match(self, meta: PacketMeta) -> bool
        decreases self,
    {
        match self {
            Predicate::InnerEtherType(l) => meta.inner.ether matches Some(e) && any_matches(l@, e.ether_type),
            Predicate::InnerEtherSrc(l) => meta.inner.ether matches Some(e) && any_matches(l@, e.src),
            Predicate::InnerEtherDst(l) => meta.inner.ether matches Some(e) && any_matches(l@, e.dst),
            Predicate::InnerSrcIp4(l) => meta.inner.ip matches Some(IpMeta::Ip4(m)) && any_matches(l@, m.src),
            Predicate::InnerDstIp4(l) => meta.inner.ip matches Some(IpMeta::Ip4(m)) && any_matches(l@, m.dst),
            Predicate::InnerSrcIp6(l) => meta.inner.ip matches Some(IpMeta::Ip6(m)) && any_matches(l@, m.src),
            Predicate::InnerDstIp6(l) => meta.inner.ip matches Some(IpMeta::Ip6(m)) && any_matches(l@, m.dst),
            Predicate::InnerIpProto(l) => meta.inner.ip matches Some(ip) && any_matches(l@, ip.spec_proto()),
            Predicate::InnerSrcPort(l) => meta.inner.ulp matches Some(u) && any_matches(l@, u.spec_src_port()),
            Predicate::InnerDstPort(l) => meta.inner.ulp matches Some(u) && any_matches(l@, u.spec_dst_port()),
            Predicate::Not(p) => !p.spec_is_match(meta),
        }
    }

    /// True when `other` asks the same: the same kind of predicate with the same patterns
    /// in the same order.
    pub open spec fn spec_same(self, other: Predicate) -> bool
        decreases self,
    {
        match (self, other) {
            (Predicate::InnerEtherType(a), Predicate::InnerEtherType(b)) => a@ == b@,
            (Predicate::InnerEtherSrc(a), Predicate::InnerEtherSrc(b)) => a@ == b@,
            (Predicate::InnerEtherDst(a), Predicate::InnerEtherDst(b)) => a@ == b@,
            (Predicate::InnerSrcIp4(a), Predicate::InnerSrcIp4(b)) => a@ == b@,
            (Predicate::InnerDstIp4(a), Predicate::InnerDstIp4(b)) => a@ == b@,
            (Predicate::InnerSrcIp6(a), Predicate::InnerSrcIp6(b)) => a@ == b@,
            (Predicate::InnerDstIp6(a), Predicate::InnerDstIp6(b)) => a@ == b@,
            (Predicate::InnerIpProto(a), Predicate::InnerIpProto(b)) => a@ == b@,
            (Predicate::InnerSrcPort(a), Predicate::InnerSrcPort(b)) => a@ == b@,
            (Predicate::InnerDstPort(a), Predicate::InnerDstPort(b)) => a@ == b@,
            (Predicate::Not(a), Predicate::Not(b)) => a.spec_same(*b),
            _ => false,
        }
    }

    /// True when the headers of `meta` meet the predicate.
    pub fn is_match(&self, meta: &PacketMeta) -> (r: bool)
        ensures
            r == self.spec_is_match(*meta),
        decreases self,
    {
        match self {
            Predicate::InnerEtherType(l) => match &meta.inner.ether {
                Some(e) => match_any(l, &e.ether_type),
                None => false,
            },
            Predicate::InnerEtherSrc(l) => match &meta.inner.ether {
                Some(e) => match_any(l, &e.src),
                None => false,
            },
            Predicate::InnerEtherDst(l) => match &meta.inner.ether {
                Some(e) => match_any(l, &e.dst),
                None => false,
            },
            Predicate::InnerSrcIp4(l) => match &meta.inner.ip {
                Some(IpMeta::Ip4(m)) => match_any(l, &m.src),
                _ => false,
            },
            Predicate::InnerDstIp4(l) => match &meta.inner.ip {
                Some(IpMeta::Ip4(m)) => match_any(l, &m.dst),
                _ => false,
            },
            Predicate::InnerSrcIp6(l) => match &meta.inner.ip {
                Some(IpMeta::Ip6(m)) => match_any(l, &m.src),
                _ => false,
            },
            Predicate::InnerDstIp6(l) => match &meta.inner.ip {
                Some(IpMeta::Ip6(m)) => match_any(l, &m.dst),
                _ => false,
            },
            Predicate::InnerIpProto(l) => match &meta.inner.ip {
                Some(ip) => {
                    let p = ip.proto();
                    match_any(l, &p)
                },
                None => false,
            },
            Predicate::InnerSrcPort(l) => match &meta.inner.ulp {
                Some(u) => {
                    let p = u.src_port();
                    match_any(l, &p)
                },
                None => false,
            },
            Predicate::InnerDstPort(l) => match &meta.inner.ulp {
                Some(u) => {
                    let p = u.dst_port();
                    match_any(l, &p)
                },
                None => false,
            },
            Predicate::Not(p) => !p.is_match(meta),
        }
    }

    /// True when `other` asks the same.
    pub fn same_as(&self, other: &Predicate) -> (r: bool)
        ensures
            r == self.spec_same(*other),
        decreases self,
    {
        match (self, other) {
            (Predicate::InnerEtherType(a), Predicate::InnerEtherType(b)) => same_list(a, b),
            (Predicate::InnerEtherSrc(a), Predicate::InnerEtherSrc(b)) => same_list(a, b),
            (Predicate::InnerEtherDst(a), Predicate::InnerEtherDst(b)) => same_list(a, b),
            (Predicate::InnerSrcIp4(a), Predicate::InnerSrcIp4(b)) => same_list(a, b),
            (Predicate::InnerDstIp4(a), Predicate::InnerDstIp4(b)) => same_list(a, b),
            (Predicate::InnerSrcIp6(a), Predicate::InnerSrcIp6(b)) => same_list(a, b),
            (Predicate::InnerDstIp6(a), Predicate::InnerDstIp6(b)) => same_list(a, b),
            (Predicate::InnerIpProto(a), Predicate::InnerIpProto(b)) => same_list(a, b),
            (Predicate::InnerSrcPort(a), Predicate::InnerSrcPort(b)) => same_list(a, b),
            (Predicate::InnerDstPort(a), Predicate::InnerDstPort(b)) => same_list(a, b),
            (Predicate::Not(a), Predicate::Not(b)) => a.same_as(b),
            _ => false,
        }
    }
}

/// What a rule asks of a packet's body.
#[derive(Clone, Copy, Debug, PartialEq, Eq, Structural)]
pub enum DataPredicate {
    /// The packet is ICMP over IPv4 and the first byte of its body, the message type, is
    /// this one.
    ICMP4MsgType(u8),
}

impl DataPredicate {
    /// True when the packet with the headers `meta` and the body `body` meets the predicate.
    pub open spec fn spec_is_match(self, meta: PacketMeta, body: Seq<u8>) -> bool {
        match self {
            DataPredicate::ICMP4MsgType(t) => meta.inner.ip matches Some(IpMeta::Ip4(m)) && m.proto
                == Protocol::ICMP && body.len() > 0 && body[0] == t,
        }
    }

    /// True when the packet with the headers `meta` and the body `body` meets the predicate.
    pub fn is_match(&self, meta: &PacketMeta, body: &[u8]) -> (r: bool)
        ensures
            r == self.spec_is_match(*meta, body@),
    {
        match self {
            DataPredicate::ICMP4MsgType(t) => match &meta.inner.ip {
                Some(IpMeta::Ip4(m)) => m.proto == Protocol::ICMP && body.len() > 0 && body[0] == *t,
                _ => false,
            },
        }
    }
}

/// The texts of the patterns of `list`, with commas between them.
pub open spec fn list_text<M: Matcher<T>, T>(list: Seq<M>) -> Seq<char>
    decreases list.len(),
{
    if list.len() == 0 {
        Seq::empty()
    } else if list.len() == 1 {
        list[0].spec_text()
    } else {
        list_text::<M, T>(list.drop_last()) + seq![','] + list.last().spec_text()
    }
}

// Appends the texts of the patterns of `list` to `out`, with commas between them.
fn push_list<M: Matcher<T>, T>(out: &mut String, list: &Vec<M>)
    ensures
        final(out)@ == old(out)@ + list_text::<M, T>(list@),
{
    let n = list.len();
    let mut i: usize = 0;
    assert(list@.take(0) =~= Seq::<M>::empty());
    assert(out@ =~= old(out)@ + list_text::<M, T>(list@.take(0)));
    while i < n
        invariant
            i <= n == list.len(),
            out@ == old(out)@ + list_text::<M, T>(list@.take(i as int)),
        decreases n - i,
    {
        proof {
            let t = list@.take(i + 1);
            assert(t.drop_last() =~= list@.take(i as int));
            assert(t.last() == list@[i as int]);
            if i == 0 {
                assert(t[0] == list@[0]);
            }
        }
        if i > 0 {
            out.push(',');
        }
        let t = list[i].text();
        out.append(t.as_str());
        i = i + 1;
        assert(out@ =~= old(out)@ + list_text::<M, T>(list@.take(i as int)));
    }
    assert(list@.take(n as int) =~= list@);
}

impl Predicate {
    /// The text of the predicate: the field that it looks at, an equals sign, and the
    /// patterns for the field; an exclamation mark before a predicate that is negated.
    pub open spec fn text(self) -> Seq<char>
        decreases self,
    {
        match self {
            Predicate::InnerEtherType(l) => "inner.ether.ether_type="@ + list_text::<EtherType, EtherType>(l@),
            Predicate::InnerEtherSrc(l) => "inner.ether.src="@ + list_text::<MacAddr, MacAddr>(l@),
            Predicate::InnerEtherDst(l) => "inner.ether.dst="@ + list_text::<MacAddr, MacAddr>(l@),
            Predicate::InnerSrcIp4(l) => "inner.ip.src="@ + list_text::<Ipv4AddrMatch, Ipv4Addr>(l@),
            Predicate::InnerDstIp4(l) => "inner.ip.dst="@ + list_text::<Ipv4AddrMatch, Ipv4Addr>(l@),
            Predicate::InnerSrcIp6(l) => "inner.ip6.src="@ + list_text::<Ipv6AddrMatch, Ipv6Addr>(l@),
            Predicate::InnerDstIp6(l) => "inner.ip6.dst="@ + list_text::<Ipv6AddrMatch, Ipv6Addr>(l@),
            Predicate::InnerIpProto(l) => "inner.ip.proto="@ + list_text::<Protocol, Protocol>(l@),
            Predicate::InnerSrcPort(l) => "inner.ulp.src="@ + list_text::<PortMatch, u16>(l@),
            Predicate::InnerDstPort(l) => "inner.ulp.dst="@ + list_text::<PortMatch, u16>(l@),
            Predicate::Not(p) => seq!['!'] + p.text(),
        }
    }

    // Appends the text of the predicate to `out`.
    fn push_text(&self, out: &mut String)
        ensures
            final(out)@ == old(out)@ + self.text(),
        decreases self,
    {
        match self {
            Predicate::InnerEtherType(l) => {
                out.append("inner.ether.ether_type=");
                push_list::<EtherType, EtherType>(out, l);
            },
            Predicate::InnerEtherSrc(l) => {
                out.append("inner.ether.src=");
                push_list::<MacAddr, MacAddr>(out, l);
            },
            Predicate::InnerEtherDst(l) => {
                out.append("inner.ether.dst=");
                push_list::<MacAddr, MacAddr>(out, l);
            },
            Predicate::InnerSrcIp4(l) => {
                out.append("inner.ip.src=");
                push_list::<Ipv4AddrMatch, Ipv4Addr>(out, l);
            },
            Predicate::InnerDstIp4(l) => {
                out.append("inner.ip.dst=");
                push_list::<Ipv4AddrMatch, Ipv4Addr>(out, l);
            },
            Predicate::InnerSrcIp6(l) => {
                out.append("inner.ip6.src=");
                push_list::<Ipv6AddrMatch, Ipv6Addr>(out, l);
            },
            Predicate::InnerDstIp6(l) => {
                out.append("inner.ip6.dst=");
                push_list::<Ipv6AddrMatch, Ipv6Addr>(out, l);
            },
            Predicate::InnerIpProto(l) => {
                out.append("inner.ip.proto=");
                push_list::<Protocol, Protocol>(out, l);
            },
            Predicate::InnerSrcPort(l) => {
                out.append("inner.ulp.src=");
                push_list::<PortMatch, u16>(out, l);
            },
            Predicate::InnerDstPort(l) => {
                out.append("inner.ulp.dst=");
                push_list::<PortMatch, u16>(out, l);
            },
            Predicate::Not(p) => {
                out.push('!');
                p.push_text(out);
            },
        }
        assert(out@ =~= old(out)@ + self.text());
    }

    /// The text of the predicate.
    pub fn to_string(&self) -> (r: String)
        ensures
            r@ == self.text(),
    {
        let mut out = String::new();
        self.push_text(&mut out);
        assert(out@ =~= self.text());
        out
    }
}

impl DataPredicate {
    /// The text of the predicate.
    pub open spec fn text(self) -> Seq<char> {
        match self {
            DataPredicate::ICMP4MsgType(t) => "icmp.msg_type="@ + decimal(t as nat),
        }
    }

    /// The text of the predicate.
    pub fn to_string(&self) -> (r: String)
        ensures
            r@ == self.text(),
    {
        match self {
            DataPredicate::ICMP4MsgType(t) => {
                let mut out = "icmp.msg_type=".to_owned();
                push_decimal(&mut out, *t as u64);
                out
            },
        }
    }
}

} // verus!
