//! Header transformations: what an action does to the metadata of a packet.

use crate::addr::IpAddr;
use crate::addr::Ipv4Addr;
use crate::addr::Ipv6Addr;
use crate::addr::MacAddr;
use crate::ether::EtherMeta;
use crate::headers::IpMeta;
use crate::headers::Ipv4Meta;
use crate::headers::Ipv6Meta;
use crate::headers::TcpMeta;
use crate::headers::UdpMeta;
use crate::headers::UlpMeta;
use crate::packet::InnerMeta;
use crate::packet::OuterMeta;
use crate::packet::PacketMeta;
use vstd::prelude::*;

verus! {

/// What a transformation does to the outer headers.
#[derive(Clone, Copy, Debug, PartialEq, Eq, Structural)]
pub enum OuterAction {
    /// Leave them as they are.
    Ignore,
    /// Put these in their place.
    Push(OuterMeta),
    /// Take them off.
    Pop,
}

/// A transformation of the header metadata. Each inner field that it names is set where
/// the packet has the header; the outer headers are left, replaced or taken off.
#[derive(Clone, Copy, Debug, PartialEq, Eq, Structural)]
pub struct HdrTransform {
    pub outer: OuterAction,
    pub ether_src: Option<MacAddr>,
    pub ether_dst: Option<MacAddr>,
    pub ip4_src: Option<Ipv4Addr>,
    pub ip4_dst: Option<Ipv4Addr>,
    pub ip6_src: Option<Ipv6Addr>,
    pub ip6_dst: Option<Ipv6Addr>,
    pub ulp_src: Option<u16>,
    pub ulp_dst: Option<u16>,
}

/// `b` where it names a value, else `a`.
pub open spec fn later<T>(a: Option<T>, b: Option<T>) -> Option<T> {
    match b {
        Some(_) => b,
        None => a,
    }
}

/// `v` where `set` names no value, else the value that it names.
pub open spec fn set_to<T>(v: T, set: Option<T>) -> T {
    match set {
        Some(x) => x,
        None => v,
    }
}

/// Metadata without outer headers.
pub open spec fn no_outer() -> OuterMeta {
    OuterMeta { ether: None, ip: None, ulp: None, encap: None }
}

fn pick<T: Copy>(v: T, set: Option<T>) -> (r: T)
    ensures
        r == set_to(v, set),
{
    match set {
        Some(x) => x,
        None => v,
    }
}

fn pick_later<T: Copy>(a: Option<T>, b: Option<T>) -> (r: Option<T>)
    ensures
        r == later(a, b),
{
    match b {
        Some(_) => b,
        None => a,
    }
}

impl HdrTransform {
    /// The transformation that changes nothing.
    pub open spec fn spec_identity() -> HdrTransform {
        HdrTransform {
            outer: OuterAction::Ignore,
            ether_src: None,
            ether_dst: None,
            ip4_src: None,
            ip4_dst: None,
            ip6_src: None,
            ip6_dst: None,
            ulp_src: None,
            ulp_dst: None,
        }
    }

    /// True for the transformation that changes nothing.
    pub open spec fn spec_is_identity(self) -> bool {
        self == HdrTransform::spec_identity()
    }

    /// The outer metadata after the transformation.
    pub open spec fn run_outer(self, outer: OuterMeta) -> OuterMeta {
        match self.outer {
            OuterAction::Ignore => outer,
            OuterAction::Push(o) => o,
            OuterAction::Pop => no_outer(),
        }
    }

    /// The inner metadata after the transformation.
    pub open spec fn run_inner(self, inner: InnerMeta) -> InnerMeta {
        InnerMeta {
            ether: match inner.ether {
                Some(e) => Some(
                    EtherMeta { src: set_to(e.src, self.ether_src), dst: set_to(e.dst, self.ether_dst), ..e },
                ),
                None => None,
            },
            ip: match inner.ip {
                Some(IpMeta::Ip4(m)) => Some(
                    IpMeta::Ip4(
                        Ipv4Meta { src: set_to(m.src, self.ip4_src), dst: set_to(m.dst, self.ip4_dst), ..m },
                    ),
                ),
                Some(IpMeta::Ip6(m)) => Some(
                    IpMeta::Ip6(
                        Ipv6Meta { src: set_to(m.src, self.ip6_src), dst: set_to(m.dst, self.ip6_dst), ..m },
                    ),
                ),
                None => None,
            },
            ulp: match inner.ulp {
                Some(UlpMeta::Tcp(m)) => Some(
                    UlpMeta::Tcp(
                        TcpMeta { src: set_to(m.src, self.ulp_src), dst: set_to(m.dst, self.ulp_dst), ..m },
                    ),
                ),
                Some(UlpMeta::Udp(m)) => Some(
                    UlpMeta::Udp(
                        UdpMeta { src: set_to(m.src, self.ulp_src), dst: set_to(m.dst, self.ulp_dst) },
                    ),
                ),
                None => None,
            },
        }
    }

    /// The metadata after the transformation.
    pub open spec fn spec_run(self, meta: PacketMeta) -> PacketMeta {
        PacketMeta { outer: self.run_outer(meta.outer), inner: self.run_inner(meta.inner) }
    }

    /// The transformation that does what `self` does and then what `next` does.
    pub open spec fn spec_chain(self, next: HdrTransform) -> HdrTransform {
        HdrTransform {
            outer: match next.outer {
                OuterAction::Ignore => self.outer,
                _ => next.outer,
            },
            ether_src: later(self.ether_src, next.ether_src),
            ether_dst: later(self.ether_dst, next.ether_dst),
            ip4_src: later(self.ip4_src, next.ip4_src),
            ip4_dst: later(self.ip4_dst, next.ip4_dst),
            ip6_src: later(self.ip6_src, next.ip6_src),
            ip6_dst: later(self.ip6_dst, next.ip6_dst),
            ulp_src: later(self.ulp_src, next.ulp_src),
            ulp_dst: later(self.ulp_dst, next.ulp_dst),
        }
    }

    /// The transformation that changes nothing.
    pub fn identity() -> (r: HdrTransform)
        ensures
            r == HdrTransform::spec_identity(),
    {
        HdrTransform {
            outer: OuterAction::Ignore,
            ether_src: None,
            ether_dst: None,
            ip4_src: None,
            ip4_dst: None,
            ip6_src: None,
            ip6_dst: None,
            ulp_src: None,
            ulp_dst: None,
        }
    }

    /// True for the transformation that changes nothing.
    pub fn is_identity(&self) -> (r: bool)
        ensures
            r == self.spec_is_identity(),
    {
        *self == HdrTransform::identity()
    }

    /// Transforms `meta`.
    pub fn run(&self, meta: &mut PacketMeta)
        ensures
            *final(meta) == self.spec_run(*old(meta)),
    {
        let outer = match self.outer {
            OuterAction::Ignore => meta.outer,
            OuterAction::Push(o) => o,
            OuterAction::Pop => OuterMeta { ether: None, ip: None, ulp: None, encap: None },
        };
        let ether = match meta.inner.ether {
            Some(e) => Some(EtherMeta { src: pick(e.src, self.ether_src), dst: pick(e.dst, self.ether_dst), ..e }),
            None => None,
        };
        let ip = match meta.inner.ip {
            Some(IpMeta::Ip4(m)) => Some(
                IpMeta::Ip4(Ipv4Meta { src: pick(m.src, self.ip4_src), dst: pick(m.dst, self.ip4_dst), ..m }),
            ),
            Some(IpMeta::Ip6(m)) => Some(
                IpMeta::Ip6(Ipv6Meta { src: pick(m.src, self.ip6_src), dst: pick(m.dst, self.ip6_dst), ..m }),
            ),
            None => None,
        };
        let ulp = match meta.inner.ulp {
            Some(UlpMeta::Tcp(m)) => Some(
                UlpMeta::Tcp(TcpMeta { src: pick(m.src, self.ulp_src), dst: pick(m.dst, self.ulp_dst), ..m }),
            ),
            Some(UlpMeta::Udp(m)) => Some(
                UlpMeta::Udp(UdpMeta { src: pick(m.src, self.ulp_src), dst: pick(m.dst, self.ulp_dst) }),
            ),
            None => None,
        };
        *meta = PacketMeta { outer, inner: InnerMeta { ether, ip, ulp } };
    }

    /// The transformation that does what this one does and then what `next` does.
    pub fn chain(&self, next: &HdrTransform) -> (r: HdrTransform)
        ensures
            r == self.spec_chain(*next),
    {
        HdrTransform {
            outer: match next.outer {
                OuterAction::Ignore => self.outer,
                _ => next.outer,
            },
            ether_src: pick_later(self.ether_src, next.ether_src),
            ether_dst: pick_later(self.ether_dst, next.ether_dst),
            ip4_src: pick_later(self.ip4_src, next.ip4_src),
            ip4_dst: pick_later(self.ip4_dst, next.ip4_dst),
            ip6_src: pick_later(self.ip6_src, next.ip6_src),
            ip6_dst: pick_later(self.ip6_dst, next.ip6_dst),
            ulp_src: pick_later(self.ulp_src, next.ulp_src),
            ulp_dst: pick_later(self.ulp_dst, next.ulp_dst),
        }
    }
}

/// Running two transformations one after the other is running the one that
/// [`HdrTransform::spec_chain`] makes of them.
pub proof fn lemma_chain_run(a: HdrTransform, b: HdrTransform, meta: PacketMeta)
    ensures
        a.spec_chain(b).spec_run(meta) == b.spec_run(a.spec_run(meta)),
{
}

/// The identity changes nothing, alone or next to another transformation.
pub proof fn lemma_identity(a: HdrTransform, meta: PacketMeta)
    ensures
        HdrTransform::spec_identity().spec_run(meta) == meta,
        HdrTransform::spec_identity().spec_chain(a) == a,
        a.spec_chain(HdrTransform::spec_identity()) == a,
{
}

} // verus!
