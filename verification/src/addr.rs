//! Link-layer and network-layer addresses, and address blocks (CIDRs).

use crate::text::chars_of;
use crate::text::hex_byte;
use crate::text::push_hex_byte;
use crate::text::decimal;
use crate::text::parse_decimal;
use crate::text::push_decimal;
use crate::text::read_decimal;
use crate::text::split;
use crate::text::split_chars;
use crate::text::string_of;
use crate::wire::be_u128;
use crate::wire::be_u32;
use crate::wire::be_u48;
use crate::wire::read_u128;
use crate::wire::read_u32;
use crate::wire::read_u48;
use crate::wire::u128_bytes;
use crate::wire::u32_bytes;
use crate::wire::u48_bytes;
use vstd::prelude::*;
use vstd::string::StringExecFns;

verus! {

/// The number of bits in an IPv4 address.
pub const IPV4_BITS: u8 = 32;

/// The number of bits in an IPv6 address.
pub const IPV6_BITS: u8 = 128;

/// An Ethernet (MAC) address. Its view is the 48-bit number that its six bytes write in
/// network order.
#[derive(Clone, Copy, Debug, PartialEq, Eq, Structural)]
pub struct MacAddr {
    inner: u64,
}

impl View for MacAddr {
    type V = u64;

    closed spec fn view(&self) -> u64 {
        self.inner
    }
}

impl MacAddr {
    #[verifier::type_invariant]
    spec fn in_range(self) -> bool {
        self.inner < 0x1_0000_0000_0000
    }

    /// The address with the 48-bit value `v`.
    pub closed spec fn of(v: u64) -> MacAddr {
        MacAddr { inner: v }
    }

    /// The value of the address made from `v` is `v`.
    pub broadcast proof fn lemma_of_view(v: u64)
        ensures
            #[trigger] MacAddr::of(v)@ == v,
    {
    }

    /// An address is the one made from its value: addresses with one value are equal.
    pub broadcast proof fn lemma_view_of(a: MacAddr)
        ensures
            #[trigger] MacAddr::of(a@) == a,
    {
    }

    /// The address whose six bytes are `b`.
    pub fn from_bytes(b: [u8; 6]) -> (r: MacAddr)
        ensures
            r == MacAddr::of(be_u48(b@, 0)),
            r@ == be_u48(b@, 0),
    {
        MacAddr { inner: read_u48(b.as_slice(), 0) }
    }

    /// The address with the given 48-bit value.
    pub fn from_value(v: u64) -> (r: MacAddr)
        requires
            v < 0x1_0000_0000_0000,
        ensures
            r == MacAddr::of(v),
            r@ == v,
    {
        MacAddr { inner: v }
    }

    /// The 48-bit value of the address.
    pub fn value(&self) -> (r: u64)
        ensures
            r == self@,
            r < 0x1_0000_0000_0000,
    {
        proof {
            use_type_invariant(self);
        }
        self.inner
    }

    /// The six bytes of the address.
    pub fn bytes(&self) -> (r: [u8; 6])
        ensures
            r@ == u48_bytes(self@),
    {
        let v = self.inner;
        let hi: u16 = (v / 4294967296 % 65536) as u16;
        let lo: u32 = (v % 4294967296) as u32;
        let mid: u16 = (lo / 65536) as u16;
        let low: u16 = (lo % 65536) as u16;
        let r = [
            (hi / 256) as u8,
            (hi % 256) as u8,
            (mid / 256) as u8,
            (mid % 256) as u8,
            (low / 256) as u8,
            (low % 256) as u8,
        ];
        assert(r@ =~= u48_bytes(self@));
        r
    }

    /// The text of the address: its six bytes as two hexadecimal digits each, in upper
    /// case, with colons between them.
    pub open spec fn text(self) -> Seq<char> {
        let b = u48_bytes(self@);
        hex_byte(b[0]) + seq![':'] + hex_byte(b[1]) + seq![':'] + hex_byte(b[2]) + seq![':'] + hex_byte(b[3])
            + seq![':'] + hex_byte(b[4]) + seq![':'] + hex_byte(b[5])
    }

    /// The text of the address.
    pub fn to_string(&self) -> (r: String)
        ensures
            r@ == self.text(),
    {
        let b = self.bytes();
        let mut out = String::new();
        push_hex_byte(&mut out, b[0]);
        out.push(':');
        push_hex_byte(&mut out, b[1]);
        out.push(':');
        push_hex_byte(&mut out, b[2]);
        out.push(':');
        push_hex_byte(&mut out, b[3]);
        out.push(':');
        push_hex_byte(&mut out, b[4]);
        out.push(':');
        push_hex_byte(&mut out, b[5]);
        assert(out@ =~= self.text());
        out
    }

    /// The all-zero address.
    pub fn zero() -> (r: MacAddr)
        ensures
            r == MacAddr::of(0),
            r@ == 0,
    {
        MacAddr { inner: 0 }
    }

    /// The broadcast address, `FF:FF:FF:FF:FF:FF`.
    pub fn broadcast() -> (r: MacAddr)
        ensures
            r == MacAddr::of(0xFFFF_FFFF_FFFF),
            r@ == 0xFFFF_FFFF_FFFF,
    {
        MacAddr { inner: 0xFFFF_FFFF_FFFF }
    }
}

impl From<[u8; 6]> for MacAddr {
    fn from(b: [u8; 6]) -> (r: MacAddr) {
        MacAddr::from_bytes(b)
    }
}

impl vstd::std_specs::convert::FromSpecImpl<[u8; 6]> for MacAddr {
    open spec fn obeys_from_spec() -> bool {
        true
    }

    closed spec fn from_spec(b: [u8; 6]) -> MacAddr {
        MacAddr { inner: be_u48(b@, 0) }
    }
}

/// An IPv4 address. Its view is the 32-bit number that its four bytes write in network
/// order.
#[derive(Clone, Copy, Debug, PartialEq, Eq, Structural)]
pub struct Ipv4Addr {
    pub inner: u32,
}

impl View for Ipv4Addr {
    type V = u32;

    open spec fn view(&self) -> u32 {
        self.inner
    }
}

/// The dotted text of the IPv4 address `v`.
pub open spec fn ipv4_text(v: u32) -> Seq<char> {
    decimal((v / 16777216) as nat) + seq!['.'] + decimal((v / 65536 % 256) as nat) + seq!['.'] + decimal(
        (v / 256 % 256) as nat,
    ) + seq!['.'] + decimal((v % 256) as nat)
}

/// The IPv4 address that the dotted text `s` writes, if it writes one: four decimal numbers
/// of at most 255 with a dot between them.
pub open spec fn read_ipv4(s: Seq<char>) -> Option<u32> {
    let parts = split(s, '.');
    if parts.len() == 4 && read_decimal(parts[0], 255) is Ok && read_decimal(parts[1], 255) is Ok
        && read_decimal(parts[2], 255) is Ok && read_decimal(parts[3], 255) is Ok {
        Some(
            (read_decimal(parts[0], 255)->Ok_0 * 16777216 + read_decimal(parts[1], 255)->Ok_0 * 65536
                + read_decimal(parts[2], 255)->Ok_0 * 256 + read_decimal(parts[3], 255)->Ok_0) as u32,
        )
    } else {
        None
    }
}

/// The message with which text that is no address is refused.
pub open spec fn malformed_ip(s: Seq<char>) -> Seq<char> {
    "malformed ip: "@ + s
}

/// The message with which text that is no address block is refused.
pub open spec fn malformed_cidr(s: Seq<char>) -> Seq<char> {
    "malformed cidr: "@ + s
}

fn parse_ipv4_chars(chars: &Vec<char>) -> (r: Option<u32>)
    ensures
        r == read_ipv4(chars@),
{
    let parts = split_chars(chars, '.');
    if parts.len() != 4 {
        return None;
    }
    let a = parse_decimal(&parts[0], 0, parts[0].len(), 255);
    let b = parse_decimal(&parts[1], 0, parts[1].len(), 255);
    let c = parse_decimal(&parts[2], 0, parts[2].len(), 255);
    let d = parse_decimal(&parts[3], 0, parts[3].len(), 255);
    proof {
        assert(parts[0]@.subrange(0, parts[0]@.len() as int) =~= parts[0]@);
        assert(parts[1]@.subrange(0, parts[1]@.len() as int) =~= parts[1]@);
        assert(parts[2]@.subrange(0, parts[2]@.len() as int) =~= parts[2]@);
        assert(parts[3]@.subrange(0, parts[3]@.len() as int) =~= parts[3]@);
    }
    match (a, b, c, d) {
        (Ok(a), Ok(b), Ok(c), Ok(d)) => Some(
            (a as u32) * 16777216 + (b as u32) * 65536 + (c as u32) * 256 + (d as u32),
        ),
        _ => None,
    }
}

impl Ipv4Addr {
    /// The address whose four bytes are `b`.
    pub fn from_bytes(b: [u8; 4]) -> (r: Ipv4Addr)
        ensures
            r@ == be_u32(b@, 0),
    {
        Ipv4Addr { inner: read_u32(b.as_slice(), 0) }
    }

    /// The four bytes of the address.
    pub fn bytes(&self) -> (r: [u8; 4])
        ensures
            r@ == u32_bytes(self@),
    {
        let v = self.inner;
        let hi: u16 = (v / 65536) as u16;
        let lo: u16 = (v % 65536) as u16;
        let r = [(hi / 256) as u8, (hi % 256) as u8, (lo / 256) as u8, (lo % 256) as u8];
        assert(r@ =~= u32_bytes(self@));
        r
    }

    /// The unspecified address, `0.0.0.0`.
    pub fn any() -> (r: Ipv4Addr)
        ensures
            r@ == 0,
    {
        Ipv4Addr { inner: 0 }
    }

    /// The local broadcast address, `255.255.255.255`.
    pub fn local_bcast() -> (r: Ipv4Addr)
        ensures
            r@ == 0xFFFF_FFFF,
    {
        Ipv4Addr { inner: 0xFFFF_FFFF }
    }

    /// Reads an address from dotted text; other text is refused with a message that quotes
    /// it.
    pub fn parse(s: &str) -> (r: Result<Ipv4Addr, String>)
        ensures
            match r {
                Ok(a) => read_ipv4(s@) == Some(a@),
                Err(e) => read_ipv4(s@) is None && e@ == malformed_ip(s@),
            },
    {
        let chars = chars_of(s);
        match parse_ipv4_chars(&chars) {
            Some(v) => Ok(Ipv4Addr { inner: v }),
            None => {
                let mut msg = "malformed ip: ".to_owned();
                msg.append(s);
                Err(msg)
            },
        }
    }

    /// The dotted text of the address.
    pub fn to_string(&self) -> (r: String)
        ensures
            r@ == ipv4_text(self@),
    {
        let v = self.inner;
        let mut out = String::new();
        push_decimal(&mut out, (v / 16777216) as u64);
        out.push('.');
        push_decimal(&mut out, (v / 65536 % 256) as u64);
        out.push('.');
        push_decimal(&mut out, (v / 256 % 256) as u64);
        out.push('.');
        push_decimal(&mut out, (v % 256) as u64);
        assert(out@ =~= ipv4_text(self@));
        out
    }
}

impl From<[u8; 4]> for Ipv4Addr {
    fn from(b: [u8; 4]) -> (r: Ipv4Addr) {
        Ipv4Addr::from_bytes(b)
    }
}

impl vstd::std_specs::convert::FromSpecImpl<[u8; 4]> for Ipv4Addr {
    open spec fn obeys_from_spec() -> bool {
        true
    }

    open spec fn from_spec(b: [u8; 4]) -> Ipv4Addr {
        Ipv4Addr { inner: be_u32(b@, 0) }
    }
}

impl std::str::FromStr for Ipv4Addr {
    type Err = String;

    /// Reads an address from dotted text, as [`Ipv4Addr::parse`] does.
    fn from_str(s: &str) -> (r: Result<Ipv4Addr, String>)
        ensures
            match r {
                Ok(a) => read_ipv4(s@) == Some(a@),
                Err(e) => read_ipv4(s@) is None && e@ == malformed_ip(s@),
            },
    {
        Ipv4Addr::parse(s)
    }
}

/// The text that `smoltcp` writes for the IPv6 address with the 128-bit value `v`.
pub uninterp spec fn ipv6_text(v: u128) -> Seq<char>;

/// The 128-bit value of the IPv6 address that `smoltcp` reads from the text `s`, if it
/// reads one.
pub uninterp spec fn ipv6_read(s: Seq<char>) -> Option<u128>;

/// `Display` of `smoltcp::wire::Ipv6Address`: the text of the address whose sixteen bytes
/// write `v` in network order. The text depends on the address alone.
#[verifier::external_body]
fn format_ipv6(v: u128) -> (r: String)
    ensures
        r@ == ipv6_text(v),
{
    smoltcp::wire::Ipv6Address(v.to_be_bytes()).to_string()
}

/// `FromStr` of `smoltcp::wire::Ipv6Address`: the address that the whole of `s` writes, as
/// the number that its sixteen bytes write in network order, or nothing where `s` is no
/// address. The outcome depends on the text alone.
#[verifier::external_body]
fn scan_ipv6(s: &str) -> (r: Option<u128>)
    ensures
        r == ipv6_read(s@),
{
    match s.parse::<smoltcp::wire::Ipv6Address>() {
        Ok(a) => Some(u128::from_be_bytes(a.0)),
        Err(_) => None,
    }
}

/// An IPv6 address. Its view is the 128-bit number that its sixteen bytes write in network
/// order.
#[derive(Clone, Copy, Debug, PartialEq, Eq, Structural)]
pub struct Ipv6Addr {
    pub inner: u128,
}

impl View for Ipv6Addr {
    type V = u128;

    open spec fn view(&self) -> u128 {
        self.inner
    }
}

/// The 128-bit number that eight 16-bit words write, most significant word first.
pub open spec fn words_value(w: Seq<u16>) -> u128 {
    (((((((w[0] as int * 65536 + w[1] as int) * 65536 + w[2] as int) * 65536 + w[3] as int) * 65536
        + w[4] as int) * 65536 + w[5] as int) * 65536 + w[6] as int) * 65536 + w[7] as int) as u128
}

impl Ipv6Addr {
    /// The address whose sixteen bytes are `b`.
    pub fn from_bytes(b: [u8; 16]) -> (r: Ipv6Addr)
        ensures
            r@ == be_u128(b@, 0),
    {
        Ipv6Addr { inner: read_u128(b.as_slice(), 0) }
    }

    /// The address whose eight 16-bit groups are `w`.
    pub fn from_words(w: [u16; 8]) -> (r: Ipv6Addr)
        ensures
            r@ == words_value(w@),
    {
        let a: u128 = (w[0] as u128) * 65536 + (w[1] as u128);
        let b: u128 = a * 65536 + (w[2] as u128);
        let c: u128 = b * 65536 + (w[3] as u128);
        let d: u128 = c * 65536 + (w[4] as u128);
        let e: u128 = d * 65536 + (w[5] as u128);
        let f: u128 = e * 65536 + (w[6] as u128);
        let g: u128 = f * 65536 + (w[7] as u128);
        Ipv6Addr { inner: g }
    }

    /// The sixteen bytes of the address.
    pub fn bytes(&self) -> (r: Vec<u8>)
        ensures
            r@ == u128_bytes(self@),
    {
        let mut out: Vec<u8> = Vec::new();
        crate::wire::push_u128(&mut out, self.inner);
        assert(out@ =~= u128_bytes(self@));
        out
    }

    /// Reads an address from its text; other text is refused with a message that quotes it.
    pub fn parse(s: &str) -> (r: Result<Ipv6Addr, String>)
        ensures
            match r {
                Ok(a) => ipv6_read(s@) == Some(a@),
                Err(e) => ipv6_read(s@) is None && e@ == malformed_ip(s@),
            },
    {
        match scan_ipv6(s) {
            Some(v) => Ok(Ipv6Addr { inner: v }),
            None => {
                let mut msg = "malformed ip: ".to_owned();
                msg.append(s);
                Err(msg)
            },
        }
    }

    /// The text of the address.
    pub fn to_string(&self) -> (r: String)
        ensures
            r@ == ipv6_text(self@),
    {
        format_ipv6(self.inner)
    }
}

impl From<[u8; 16]> for Ipv6Addr {
    fn from(b: [u8; 16]) -> (r: Ipv6Addr) {
        Ipv6Addr::from_bytes(b)
    }
}

impl vstd::std_specs::convert::FromSpecImpl<[u8; 16]> for Ipv6Addr {
    open spec fn obeys_from_spec() -> bool {
        true
    }

    open spec fn from_spec(b: [u8; 16]) -> Ipv6Addr {
        Ipv6Addr { inner: be_u128(b@, 0) }
    }
}

impl From<[u16; 8]> for Ipv6Addr {
    fn from(w: [u16; 8]) -> (r: Ipv6Addr) {
        Ipv6Addr::from_words(w)
    }
}

impl vstd::std_specs::convert::FromSpecImpl<[u16; 8]> for Ipv6Addr {
    open spec fn obeys_from_spec() -> bool {
        true
    }

    open spec fn from_spec(w: [u16; 8]) -> Ipv6Addr {
        Ipv6Addr { inner: words_value(w@) }
    }
}

impl std::str::FromStr for Ipv6Addr {
    type Err = String;

    /// Reads an address from its text, as [`Ipv6Addr::parse`] does.
    fn from_str(s: &str) -> (r: Result<Ipv6Addr, String>)
        ensures
            match r {
                Ok(a) => ipv6_read(s@) == Some(a@),
                Err(e) => ipv6_read(s@) is None && e@ == malformed_ip(s@),
            },
    {
        Ipv6Addr::parse(s)
    }
}

/// An address of either family.
#[derive(Clone, Copy, Debug, PartialEq, Eq, Structural)]
pub enum IpAddr {
    Ip4(Ipv4Addr),
    Ip6(Ipv6Addr),
}

impl IpAddr {
    /// The text of the address.
    pub open spec fn text(self) -> Seq<char> {
        match self {
            IpAddr::Ip4(a) => ipv4_text(a@),
            IpAddr::Ip6(a) => ipv6_text(a@),
        }
    }

    /// The text of the address.
    pub fn to_string(&self) -> (r: String)
        ensures
            r@ == self.text(),
    {
        match self {
            IpAddr::Ip4(a) => a.to_string(),
            IpAddr::Ip6(a) => a.to_string(),
        }
    }
}

/// The mask that keeps the first `len` bits of a 32-bit address.
pub open spec fn ipv4_mask(len: u8) -> u32 {
    if len == 0 {
        0
    } else if len >= 32 {
        0xFFFF_FFFF
    } else {
        0xFFFF_FFFFu32 << ((32 - len) as u32)
    }
}

/// The mask that keeps the first `len` bits of a 128-bit address.
pub open spec fn ipv6_mask(len: u8) -> u128 {
    if len == 0 {
        0
    } else if len >= 128 {
        0xFFFF_FFFF_FFFF_FFFF_FFFF_FFFF_FFFF_FFFF
    } else {
        0xFFFF_FFFF_FFFF_FFFF_FFFF_FFFF_FFFF_FFFFu128 << ((128 - len) as u128)
    }
}

fn mask4(len: u8) -> (r: u32)
    ensures
        r == ipv4_mask(len),
{
    if len == 0 {
        0
    } else if len >= 32 {
        0xFFFF_FFFF
    } else {
        0xFFFF_FFFFu32 << ((32 - len) as u32)
    }
}

fn mask6(len: u8) -> (r: u128)
    ensures
        r == ipv6_mask(len),
{
    if len == 0 {
        0
    } else if len >= 128 {
        0xFFFF_FFFF_FFFF_FFFF_FFFF_FFFF_FFFF_FFFF
    } else {
        0xFFFF_FFFF_FFFF_FFFF_FFFF_FFFF_FFFF_FFFFu128 << ((128 - len) as u128)
    }
}

/// A block of IPv4 addresses: those that share the first `prefix_len` bits with `ip`.
///
/// The address held is the first of the block: its bits after the prefix are zero.
#[derive(Clone, Copy, Debug, PartialEq, Eq, Structural)]
pub struct Ipv4Cidr {
    ip: Ipv4Addr,
    prefix_len: u8,
}

impl Ipv4Cidr {
    #[verifier::type_invariant]
    spec fn inv(self) -> bool {
        self.wf()
    }

    /// The prefix is at most 32 bits long and the address has no bit set after it.
    pub closed spec fn wf(self) -> bool {
        &&& self.prefix_len <= 32
        &&& self.ip@ & ipv4_mask(self.prefix_len) == self.ip@
    }

    /// A well-formed block has a prefix of at most 32 bits.
    pub proof fn lemma_wf(c: Ipv4Cidr)
        requires
            c.wf(),
        ensures
            c.spec_prefix_len() <= 32,
    {
    }

    /// The first address of the block.
    pub closed spec fn spec_ip(self) -> Ipv4Addr {
        self.ip
    }

    /// The block of the addresses that share their first `prefix_len` bits with `ip`.
    pub closed spec fn spec_new(ip: Ipv4Addr, prefix_len: u8) -> Ipv4Cidr {
        Ipv4Cidr { ip: Ipv4Addr { inner: ip@ & ipv4_mask(prefix_len) }, prefix_len }
    }

    /// What [`Ipv4Cidr::spec_new`] makes has the prefix length asked for, and the address
    /// asked for without the bits after the prefix.
    pub broadcast proof fn lemma_spec_new(ip: Ipv4Addr, prefix_len: u8)
        ensures
            (#[trigger] Ipv4Cidr::spec_new(ip, prefix_len)).spec_prefix_len() == prefix_len,
            Ipv4Cidr::spec_new(ip, prefix_len).spec_ip()@ == ip@ & ipv4_mask(prefix_len),
    {
    }

    /// The number of bits that the addresses of the block share.
    pub closed spec fn spec_prefix_len(self) -> u8 {
        self.prefix_len
    }

    /// True when `addr` lies in the block.
    pub open spec fn spec_contains(self, addr: Ipv4Addr) -> bool {
        addr@ & ipv4_mask(self.spec_prefix_len()) == self.spec_ip()@
    }

    /// True for the block of all addresses, `0.0.0.0/0`.
    pub open spec fn spec_is_default(self) -> bool {
        self.spec_prefix_len() == 0
    }

    /// The text of the block: its first address, a slash, the prefix length.
    pub open spec fn text(self) -> Seq<char> {
        ipv4_text(self.spec_ip()@) + seq!['/'] + decimal(self.spec_prefix_len() as nat)
    }

    /// The block of the addresses that share their first `prefix_len` bits with `ip`; none
    /// where `prefix_len` is above 32.
    pub fn new(ip: Ipv4Addr, prefix_len: u8) -> (r: Option<Ipv4Cidr>)
        ensures
            match r {
                Some(c) => prefix_len <= 32 && c.wf() && c == Ipv4Cidr::spec_new(ip, prefix_len)
                    && c.spec_prefix_len() == prefix_len && c.spec_ip()@ == ip@ & ipv4_mask(prefix_len),
                None => prefix_len > 32,
            },
    {
        if prefix_len > 32 {
            return None;
        }
        let m = mask4(prefix_len);
        let v = ip.inner;
        assert((v & m) & m == v & m) by (bit_vector);
        Some(Ipv4Cidr { ip: Ipv4Addr { inner: v & m }, prefix_len })
    }

    /// The first address of the block.
    pub fn ip(&self) -> (r: Ipv4Addr)
        ensures
            r == self.spec_ip(),
    {
        self.ip
    }

    /// The prefix length, at most 32.
    pub fn prefix_len(&self) -> (r: u8)
        ensures
            r == self.spec_prefix_len(),
            r <= 32,
            self.wf(),
    {
        proof {
            use_type_invariant(self);
        }
        self.prefix_len
    }

    /// True when `addr` lies in the block.
    pub fn contains(&self, addr: Ipv4Addr) -> (r: bool)
        ensures
            r == self.spec_contains(addr),
    {
        (addr.inner & mask4(self.prefix_len)) == self.ip.inner
    }

    /// True for the block of all addresses.
    pub fn is_default(&self) -> (r: bool)
        ensures
            r == self.spec_is_default(),
    {
        self.prefix_len == 0
    }

    /// What [`Ipv4Cidr::parse`] reads from `s`: an address and a prefix length of at most 32
    /// with one slash between them.
    pub open spec fn read(s: Seq<char>) -> Option<(u32, u8)> {
        let parts = split(s, '/');
        if parts.len() == 2 && read_ipv4(parts[0]) is Some && read_decimal(parts[1], 32) is Ok {
            Some((read_ipv4(parts[0])->Some_0, read_decimal(parts[1], 32)->Ok_0 as u8))
        } else {
            None
        }
    }

    /// Reads a block from its text; other text is refused with a message that quotes it.
    pub fn parse(s: &str) -> (r: Result<Ipv4Cidr, String>)
        ensures
            match r {
                Ok(c) => Ipv4Cidr::read(s@) matches Some(p) && c.wf() && c == Ipv4Cidr::spec_new(
                    Ipv4Addr { inner: p.0 },
                    p.1,
                ),
                Err(e) => Ipv4Cidr::read(s@) is None && e@ == malformed_cidr(s@),
            },
    {
        let chars = chars_of(s);
        let parts = split_chars(&chars, '/');
        if parts.len() == 2 {
            let ip = parse_ipv4_chars(&parts[0]);
            let len = parse_decimal(&parts[1], 0, parts[1].len(), 32);
            assert(parts[1]@.subrange(0, parts[1]@.len() as int) =~= parts[1]@);
            match (ip, len) {
                (Some(v), Ok(n)) => {
                    let c = Ipv4Cidr::new(Ipv4Addr { inner: v }, n as u8);
                    return Ok(c.unwrap());
                },
                _ => {},
            }
        }
        let mut msg = "malformed cidr: ".to_owned();
        msg.append(s);
        Err(msg)
    }

    /// The text of the block.
    pub fn to_string(&self) -> (r: String)
        ensures
            r@ == self.text(),
    {
        let mut out = self.ip.to_string();
        out.push('/');
        push_decimal(&mut out, self.prefix_len as u64);
        assert(out@ =~= self.text());
        out
    }
}

impl std::str::FromStr for Ipv4Cidr {
    type Err = String;

    /// Reads a block from its text, as [`Ipv4Cidr::parse`] does.
    fn from_str(s: &str) -> (r: Result<Ipv4Cidr, String>)
        ensures
            match r {
                Ok(c) => Ipv4Cidr::read(s@) matches Some(p) && c.wf() && c == Ipv4Cidr::spec_new(
                    Ipv4Addr { inner: p.0 },
                    p.1,
                ),
                Err(e) => Ipv4Cidr::read(s@) is None && e@ == malformed_cidr(s@),
            },
    {
        Ipv4Cidr::parse(s)
    }
}

/// A block of IPv6 addresses: those that share the first `prefix_len` bits with `ip`.
///
/// The address held is the first of the block: its bits after the prefix are zero.
#[derive(Clone, Copy, Debug, PartialEq, Eq, Structural)]
pub struct Ipv6Cidr {
    ip: Ipv6Addr,
    prefix_len: u8,
}

impl Ipv6Cidr {
    #[verifier::type_invariant]
    spec fn inv(self) -> bool {
        self.wf()
    }

    /// The prefix is at most 128 bits long and the address has no bit set after it.
    pub closed spec fn wf(self) -> bool {
        &&& self.prefix_len <= 128
        &&& self.ip@ & ipv6_mask(self.prefix_len) == self.ip@
    }

    /// A well-formed block has a prefix of at most 128 bits.
    pub proof fn lemma_wf(c: Ipv6Cidr)
        requires
            c.wf(),
        ensures
            c.spec_prefix_len() <= 128,
    {
    }

    /// The first address of the block.
    pub closed spec fn spec_ip(self) -> Ipv6Addr {
        self.ip
    }

    /// The block of the addresses that share their first `prefix_len` bits with `ip`.
    pub closed spec fn spec_new(ip: Ipv6Addr, prefix_len: u8) -> Ipv6Cidr {
        Ipv6Cidr { ip: Ipv6Addr { inner: ip@ & ipv6_mask(prefix_len) }, prefix_len }
    }

    /// What [`Ipv6Cidr::spec_new`] makes has the prefix length asked for, and the address
    /// asked for without the bits after the prefix.
    pub broadcast proof fn lemma_spec_new(ip: Ipv6Addr, prefix_len: u8)
        ensures
            (#[trigger] Ipv6Cidr::spec_new(ip, prefix_len)).spec_prefix_len() == prefix_len,
            Ipv6Cidr::spec_new(ip, prefix_len).spec_ip()@ == ip@ & ipv6_mask(prefix_len),
    {
    }

    /// The number of bits that the addresses of the block share.
    pub closed spec fn spec_prefix_len(self) -> u8 {
        self.prefix_len
    }

    /// True when `addr` lies in the block.
    pub open spec fn spec_contains(self, addr: Ipv6Addr) -> bool {
        addr@ & ipv6_mask(self.spec_prefix_len()) == self.spec_ip()@
    }

    /// True for the block of all addresses, `::/0`.
    pub open spec fn spec_is_default(self) -> bool {
        self.spec_prefix_len() == 0
    }

    /// The text of the block: its first address, a slash, the prefix length.
    pub open spec fn text(self) -> Seq<char> {
        ipv6_text(self.spec_ip()@) + seq!['/'] + decimal(self.spec_prefix_len() as nat)
    }

    /// The block of the addresses that share their first `prefix_len` bits with `ip`; none
    /// where `prefix_len` is above 128.
    pub fn new(ip: Ipv6Addr, prefix_len: u8) -> (r: Option<Ipv6Cidr>)
        ensures
            match r {
                Some(c) => prefix_len <= 128 && c.wf() && c == Ipv6Cidr::spec_new(ip, prefix_len)
                    && c.spec_prefix_len() == prefix_len && c.spec_ip()@ == ip@ & ipv6_mask(prefix_len),
                None => prefix_len > 128,
            },
    {
        if prefix_len > 128 {
            return None;
        }
        let m = mask6(prefix_len);
        let v = ip.inner;
        assert((v & m) & m == v & m) by (bit_vector);
        Some(Ipv6Cidr { ip: Ipv6Addr { inner: v & m }, prefix_len })
    }

    /// The first address of the block.
    pub fn ip(&self) -> (r: Ipv6Addr)
        ensures
            r == self.spec_ip(),
    {
        self.ip
    }

    /// The prefix length, at most 128.
    pub fn prefix_len(&self) -> (r: u8)
        ensures
            r == self.spec_prefix_len(),
            r <= 128,
            self.wf(),
    {
        proof {
            use_type_invariant(self);
        }
        self.prefix_len
    }

    /// True when `addr` lies in the block.
    pub fn contains(&self, addr: Ipv6Addr) -> (r: bool)
        ensures
            r == self.spec_contains(addr),
    {
        (addr.inner & mask6(self.prefix_len)) == self.ip.inner
    }

    /// True for the block of all addresses.
    pub fn is_default(&self) -> (r: bool)
        ensures
            r == self.spec_is_default(),
    {
        self.prefix_len == 0
    }

    /// What [`Ipv6Cidr::parse`] reads from `s`: an address and a prefix length of at most
    /// 128 with one slash between them.
    pub open spec fn read(s: Seq<char>) -> Option<(u128, u8)> {
        let parts = split(s, '/');
        if parts.len() == 2 && ipv6_read(parts[0]) is Some && read_decimal(parts[1], 128) is Ok {
            Some((ipv6_read(parts[0])->Some_0, read_decimal(parts[1], 128)->Ok_0 as u8))
        } else {
            None
        }
    }

    /// Reads a block from its text; other text is refused with a message that quotes it.
    pub fn parse(s: &str) -> (r: Result<Ipv6Cidr, String>)
        ensures
            match r {
                Ok(c) => Ipv6Cidr::read(s@) matches Some(p) && c.wf() && c == Ipv6Cidr::spec_new(
                    Ipv6Addr { inner: p.0 },
                    p.1,
                ),
                Err(e) => Ipv6Cidr::read(s@) is None && e@ == malformed_cidr(s@),
            },
    {
        let chars = chars_of(s);
        let parts = split_chars(&chars, '/');
        if parts.len() == 2 {
            let head = string_of(&parts[0]);
            let ip = scan_ipv6(head.as_str());
            let len = parse_decimal(&parts[1], 0, parts[1].len(), 128);
            assert(parts[1]@.subrange(0, parts[1]@.len() as int) =~= parts[1]@);
            match (ip, len) {
                (Some(v), Ok(n)) => {
                    let c = Ipv6Cidr::new(Ipv6Addr { inner: v }, n as u8);
                    return Ok(c.unwrap());
                },
                _ => {},
            }
        }
        let mut msg = "malformed cidr: ".to_owned();
        msg.append(s);
        Err(msg)
    }

    /// The text of the block.
    pub fn to_string(&self) -> (r: String)
        ensures
            r@ == self.text(),
    {
        let mut out = self.ip.to_string();
        out.push('/');
        push_decimal(&mut out, self.prefix_len as u64);
        assert(out@ =~= self.text());
        out
    }
}

impl std::str::FromStr for Ipv6Cidr {
    type Err = String;

    /// Reads a block from its text, as [`Ipv6Cidr::parse`] does.
    fn from_str(s: &str) -> (r: Result<Ipv6Cidr, String>)
        ensures
            match r {
                Ok(c) => Ipv6Cidr::read(s@) matches Some(p) && c.wf() && c == Ipv6Cidr::spec_new(
                    Ipv6Addr { inner: p.0 },
                    p.1,
                ),
                Err(e) => Ipv6Cidr::read(s@) is None && e@ == malformed_cidr(s@),
            },
    {
        Ipv6Cidr::parse(s)
    }
}

/// An address block of either family.
#[derive(Clone, Copy, Debug, PartialEq, Eq, Structural)]
pub enum IpCidr {
    Ip4(Ipv4Cidr),
    Ip6(Ipv6Cidr),
}

impl IpCidr {
    /// The block is well formed in its family.
    pub open spec fn wf(self) -> bool {
        match self {
            IpCidr::Ip4(c) => c.wf(),
            IpCidr::Ip6(c) => c.wf(),
        }
    }

    /// True for the block of all addresses of its family.
    pub open spec fn spec_is_default(self) -> bool {
        match self {
            IpCidr::Ip4(c) => c.spec_is_default(),
            IpCidr::Ip6(c) => c.spec_is_default(),
        }
    }

    /// The number of bits that the addresses of the block share.
    pub open spec fn spec_prefix_len(self) -> u8 {
        match self {
            IpCidr::Ip4(c) => c.spec_prefix_len(),
            IpCidr::Ip6(c) => c.spec_prefix_len(),
        }
    }

    /// The number of bits in an address of the block's family.
    pub open spec fn spec_max_prefix_len(self) -> u8 {
        match self {
            IpCidr::Ip4(_) => IPV4_BITS,
            IpCidr::Ip6(_) => IPV6_BITS,
        }
    }

    /// The text of the block.
    pub open spec fn text(self) -> Seq<char> {
        match self {
            IpCidr::Ip4(c) => c.text(),
            IpCidr::Ip6(c) => c.text(),
        }
    }

    /// True for the block of all addresses of its family.
    pub fn is_default(&self) -> (r: bool)
        ensures
            r == self.spec_is_default(),
    {
        match self {
            IpCidr::Ip4(c) => c.is_default(),
            IpCidr::Ip6(c) => c.is_default(),
        }
    }

    /// The prefix length, no larger than the family allows.
    pub fn prefix_len(&self) -> (r: u8)
        ensures
            r == self.spec_prefix_len(),
            r <= self.spec_max_prefix_len(),
            self.wf(),
    {
        match self {
            IpCidr::Ip4(c) => c.prefix_len(),
            IpCidr::Ip6(c) => c.prefix_len(),
        }
    }

    /// The text of the block.
    pub fn to_string(&self) -> (r: String)
        ensures
            r@ == self.text(),
    {
        match self {
            IpCidr::Ip4(c) => c.to_string(),
            IpCidr::Ip6(c) => c.to_string(),
        }
    }
}

} // verus!
