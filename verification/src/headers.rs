//! What the header parsers share: protocol numbers, header errors, and the per-packet
//! metadata of the network and transport layers.

use crate::addr::IpAddr;
use crate::addr::Ipv4Addr;
use crate::addr::Ipv6Addr;
use crate::encap::Vni;
use crate::text::decimal;
use crate::text::push_decimal;
use vstd::prelude::*;
use vstd::string::StringExecFns;

verus! {

/// The protocol that an IP packet carries.
#[derive(Clone, Copy, Debug, PartialEq, Eq, Structural)]
pub enum Protocol {
    ICMP,
    TCP,
    UDP,
    ICMPv6,
    /// Any other protocol, by its number.
    Unknown(u8),
}

impl Protocol {
    /// The protocol with the number `n`.
    pub open spec fn of(n: u8) -> Protocol {
        if n == 1 {
            Protocol::ICMP
        } else if n == 6 {
            Protocol::TCP
        } else if n == 17 {
            Protocol::UDP
        } else if n == 58 {
            Protocol::ICMPv6
        } else {
            Protocol::Unknown(n)
        }
    }

    /// The number of the protocol.
    pub open spec fn number(self) -> u8 {
        match self {
            Protocol::ICMP => 1,
            Protocol::TCP => 6,
            Protocol::UDP => 17,
            Protocol::ICMPv6 => 58,
            Protocol::Unknown(n) => n,
        }
    }

    /// The usual name of the protocol; a decimal number for one that has none here.
    pub open spec fn text(self) -> Seq<char> {
        match self {
            Protocol::ICMP => "ICMP"@,
            Protocol::TCP => "TCP"@,
            Protocol::UDP => "UDP"@,
            Protocol::ICMPv6 => "ICMPv6"@,
            Protocol::Unknown(n) => decimal(n as nat),
        }
    }

    /// The protocol with the number `n`.
    pub fn from_u8(n: u8) -> (r: Protocol)
        ensures
            r == Protocol::of(n),
    {
        if n == 1 {
            Protocol::ICMP
        } else if n == 6 {
            Protocol::TCP
        } else if n == 17 {
            Protocol::UDP
        } else if n == 58 {
            Protocol::ICMPv6
        } else {
            Protocol::Unknown(n)
        }
    }

    /// The number of the protocol.
    pub fn to_u8(&self) -> (r: u8)
        ensures
            r == self.number(),
    {
        match self {
            Protocol::ICMP => 1,
            Protocol::TCP => 6,
            Protocol::UDP => 17,
            Protocol::ICMPv6 => 58,
            Protocol::Unknown(n) => *n,
        }
    }

    /// The usual name of the protocol.
    pub fn to_string(&self) -> (r: String)
        ensures
            r@ == self.text(),
    {
        match self {
            Protocol::ICMP => "ICMP".to_owned(),
            Protocol::TCP => "TCP".to_owned(),
            Protocol::UDP => "UDP".to_owned(),
            Protocol::ICMPv6 => "ICMPv6".to_owned(),
            Protocol::Unknown(n) => crate::text::decimal_string(*n as u64),
        }
    }
}

/// Why the bytes at some place are no header of the kind expected there.
#[derive(Clone, Copy, Debug, PartialEq, Eq, Structural)]
pub enum HdrError {
    /// Fewer bytes are left than the header takes.
    Truncated,
    /// The version field holds another version.
    BadVersion { vsn: u8 },
    /// The header's own statement of its length is one that is not supported.
    BadHeaderLen { hdr_len_bytes: u16 },
    /// The total length is smaller than the header.
    BadTotalLen { total_len: u16 },
    /// The length field is smaller than the header.
    BadLength { length: u16 },
    /// The destination port is not the one that the encapsulation uses.
    BadPort { port: u16 },
    /// The encapsulated protocol is not Ethernet.
    BadProtoType { proto_type: u16 },
    /// There are more bytes than can be handled.
    TooLong { length: usize },
}

impl HdrError {
    /// The words that describe the error: the name of the error and, in braces, the name
    /// of the field that is wrong, a colon and the number that it holds.
    pub open spec fn text(self) -> Seq<char> {
        match self {
            HdrError::Truncated => "ReadError{error:NotEnoughBytes}"@,
            HdrError::BadVersion { vsn } => "BadVersion{vsn:"@ + decimal(vsn as nat) + "}"@,
            HdrError::BadHeaderLen { hdr_len_bytes } => "BadHeaderLen{hdr_len_bytes:"@ + decimal(
                hdr_len_bytes as nat,
            ) + "}"@,
            HdrError::BadTotalLen { total_len } => "BadTotalLen{total_len:"@ + decimal(total_len as nat)
                + "}"@,
            HdrError::BadLength { length } => "BadLength{length:"@ + decimal(length as nat) + "}"@,
            HdrError::BadPort { port } => "BadPort{port:"@ + decimal(port as nat) + "}"@,
            HdrError::BadProtoType { proto_type } => "BadProtoType{proto_type:"@ + decimal(
                proto_type as nat,
            ) + "}"@,
            HdrError::TooLong { length } => "TooLong{length:"@ + decimal(length as nat) + "}"@,
        }
    }

    /// The words that describe the error, after the name of the header and a colon.
    pub open spec fn text_for(self, header: Seq<char>) -> Seq<char> {
        header + ": "@ + self.text()
    }

    fn numbered(header: &str, name: &str, n: u64) -> (r: String)
        ensures
            r@ == header@ + ": "@ + name@ + decimal(n as nat) + "}"@,
    {
        let mut out = header.to_owned();
        out.append(": ");
        out.append(name);
        push_decimal(&mut out, n);
        out.append("}");
        assert(out@ =~= header@ + ": "@ + name@ + decimal(n as nat) + "}"@);
        out
    }

    /// The words that describe the error, after the name of the header and a colon.
    pub fn message(&self, header: &str) -> (r: String)
        ensures
            r@ == self.text_for(header@),
    {
        match self {
            HdrError::Truncated => {
                let mut out = header.to_owned();
                out.append(": ");
                out.append("ReadError{error:NotEnoughBytes}");
                assert(out@ =~= self.text_for(header@));
                out
            },
            HdrError::BadVersion { vsn } => {
                let r = HdrError::numbered(header, "BadVersion{vsn:", *vsn as u64);
                assert(r@ =~= self.text_for(header@));
                r
            },
            HdrError::BadHeaderLen { hdr_len_bytes } => {
                let r = HdrError::numbered(header, "BadHeaderLen{hdr_len_bytes:", *hdr_len_bytes as u64);
                assert(r@ =~= self.text_for(header@));
                r
            },
            HdrError::BadTotalLen { total_len } => {
                let r = HdrError::numbered(header, "BadTotalLen{total_len:", *total_len as u64);
                assert(r@ =~= self.text_for(header@));
                r
            },
            HdrError::BadLength { length } => {
                let r = HdrError::numbered(header, "BadLength{length:", *length as u64);
                assert(r@ =~= self.text_for(header@));
                r
            },
            HdrError::BadPort { port } => {
                let r = HdrError::numbered(header, "BadPort{port:", *port as u64);
                assert(r@ =~= self.text_for(header@));
                r
            },
            HdrError::BadProtoType { proto_type } => {
                let r = HdrError::numbered(header, "BadProtoType{proto_type:", *proto_type as u64);
                assert(r@ =~= self.text_for(header@));
                r
            },
            HdrError::TooLong { length } => {
                let r = HdrError::numbered(header, "TooLong{length:", *length as u64);
                assert(r@ =~= self.text_for(header@));
                r
            },
        }
    }
}

/// What the engine keeps of an IPv4 header.
#[derive(Clone, Copy, Debug, PartialEq, Eq, Structural)]
pub struct Ipv4Meta {
    pub src: Ipv4Addr,
    pub dst: Ipv4Addr,
    pub proto: Protocol,
}

/// What the engine keeps of an IPv6 header.
#[derive(Clone, Copy, Debug, PartialEq, Eq, Structural)]
pub struct Ipv6Meta {
    pub src: Ipv6Addr,
    pub dst: Ipv6Addr,
    pub proto: Protocol,
}

/// What the engine keeps of a network-layer header.
#[derive(Clone, Copy, Debug, PartialEq, Eq, Structural)]
pub enum IpMeta {
    Ip4(Ipv4Meta),
    Ip6(Ipv6Meta),
}

impl IpMeta {
    /// The protocol that the packet carries.
    pub open spec fn spec_proto(self) -> Protocol {
        match self {
            IpMeta::Ip4(m) => m.proto,
            IpMeta::Ip6(m) => m.proto,
        }
    }

    /// The source address.
    pub open spec fn spec_src(self) -> IpAddr {
        match self {
            IpMeta::Ip4(m) => IpAddr::Ip4(m.src),
            IpMeta::Ip6(m) => IpAddr::Ip6(m.src),
        }
    }

    /// The destination address.
    pub open spec fn spec_dst(self) -> IpAddr {
        match self {
            IpMeta::Ip4(m) => IpAddr::Ip4(m.dst),
            IpMeta::Ip6(m) => IpAddr::Ip6(m.dst),
        }
    }

    /// The protocol that the packet carries.
    pub fn proto(&self) -> (r: Protocol)
        ensures
            r == self.spec_proto(),
    {
        match self {
            IpMeta::Ip4(m) => m.proto,
            IpMeta::Ip6(m) => m.proto,
        }
    }

    /// The source address.
    pub fn src(&self) -> (r: IpAddr)
        ensures
            r == self.spec_src(),
    {
        match self {
            IpMeta::Ip4(m) => IpAddr::Ip4(m.src),
            IpMeta::Ip6(m) => IpAddr::Ip6(m.src),
        }
    }

    /// The destination address.
    pub fn dst(&self) -> (r: IpAddr)
        ensures
            r == self.spec_dst(),
    {
        match self {
            IpMeta::Ip4(m) => IpAddr::Ip4(m.dst),
            IpMeta::Ip6(m) => IpAddr::Ip6(m.dst),
        }
    }
}

/// What the engine keeps of a TCP header.
#[derive(Clone, Copy, Debug, PartialEq, Eq, Structural)]
pub struct TcpMeta {
    pub src: u16,
    pub dst: u16,
    pub flags: u8,
    pub seq: u32,
    pub ack: u32,
}

/// What the engine keeps of a UDP header.
#[derive(Clone, Copy, Debug, PartialEq, Eq, Structural)]
pub struct UdpMeta {
    pub src: u16,
    pub dst: u16,
}

/// What the engine keeps of a transport-layer header.
#[derive(Clone, Copy, Debug, PartialEq, Eq, Structural)]
pub enum UlpMeta {
    Tcp(TcpMeta),
    Udp(UdpMeta),
}

impl UlpMeta {
    /// The source port.
    pub open spec fn spec_src_port(self) -> u16 {
        match self {
            UlpMeta::Tcp(m) => m.src,
            UlpMeta::Udp(m) => m.src,
        }
    }

    /// The destination port.
    pub open spec fn spec_dst_port(self) -> u16 {
        match self {
            UlpMeta::Tcp(m) => m.dst,
            UlpMeta::Udp(m) => m.dst,
        }
    }

    /// The source port.
    pub fn src_port(&self) -> (r: u16)
        ensures
            r == self.spec_src_port(),
    {
        match self {
            UlpMeta::Tcp(m) => m.src,
            UlpMeta::Udp(m) => m.src,
        }
    }

    /// The destination port.
    pub fn dst_port(&self) -> (r: u16)
        ensures
            r == self.spec_dst_port(),
    {
        match self {
            UlpMeta::Tcp(m) => m.dst,
            UlpMeta::Udp(m) => m.dst,
        }
    }
}

/// What the engine keeps of a Geneve header.
#[derive(Clone, Copy, Debug, PartialEq, Eq, Structural)]
pub struct GeneveMeta {
    pub vni: Vni,
}

} // verus!
