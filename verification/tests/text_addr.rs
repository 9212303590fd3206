//! Text forms of numbers and addresses.

use opte::addr::IpAddr;
use opte::addr::IpCidr;
use opte::addr::Ipv4Addr;
use opte::addr::Ipv4Cidr;
use opte::addr::Ipv6Addr;
use opte::addr::Ipv6Cidr;
use opte::addr::MacAddr;
use opte::api::Direction;
use opte::api::NoResp;
use opte::checksum::Checksum;
use opte::encap::Vni;
use opte::encap::VNI_MAX;
use opte::headers::HdrError;
use opte::headers::Protocol;
use opte::text::chars_of;
use opte::text::decimal_string;
use opte::text::parse_decimal;
use opte::text::parse_unsigned;
use opte::text::split_chars;
use opte::text::NumError;
use opte::time::Moment;
use opte::wire::push_u128;
use opte::wire::push_u16;
use opte::wire::push_u32;
use opte::wire::push_u48;
use opte::wire::push_u64;
use opte::wire::read_u128;
use opte::wire::read_u16;
use opte::wire::read_u32;
use opte::wire::read_u48;
use opte::wire::read_u64;

#[test]
fn decimal_numbers() {
    assert_eq!(decimal_string(0), "0");
    assert_eq!(decimal_string(7), "7");
    assert_eq!(decimal_string(10), "10");
    assert_eq!(decimal_string(65535), "65535");
    assert_eq!(decimal_string(u64::MAX), "18446744073709551615");
}

#[test]
fn numbers_from_text() {
    assert_eq!(parse_unsigned("0", 255), Ok(0));
    assert_eq!(parse_unsigned("255", 255), Ok(255));
    assert_eq!(parse_unsigned("+17", 255), Ok(17));
    assert_eq!(parse_unsigned("007", 255), Ok(7));
    assert_eq!(parse_unsigned("256", 255), Err(NumError::TooLarge));
    assert_eq!(parse_unsigned("99999999999999999999999", u64::MAX), Err(NumError::TooLarge));
    assert_eq!(parse_unsigned("", 255), Err(NumError::Empty));
    assert_eq!(parse_unsigned("+", 255), Err(NumError::InvalidDigit));
    assert_eq!(parse_unsigned("-1", 255), Err(NumError::InvalidDigit));
    assert_eq!(parse_unsigned("1 ", 255), Err(NumError::InvalidDigit));
    assert_eq!(NumError::Empty.message(), "cannot parse integer from empty string");
    assert_eq!(NumError::InvalidDigit.message(), "invalid digit found in string");
    assert_eq!(NumError::TooLarge.message(), "number too large to fit in target type");
    // The first character that cannot be taken decides.
    assert_eq!(parse_unsigned("99999999999x", 0xFFFF_FFFF), Err(NumError::TooLarge));
    assert_eq!(parse_unsigned("4294967295x", 0xFFFF_FFFF), Err(NumError::InvalidDigit));
    assert_eq!(parse_unsigned("42949672950x", 0xFFFF_FFFF), Err(NumError::TooLarge));
    assert_eq!(parse_unsigned("x99999999999", 0xFFFF_FFFF), Err(NumError::InvalidDigit));
    assert_eq!(parse_unsigned("25x6", 255), Err(NumError::InvalidDigit));
    assert_eq!(parse_unsigned("256x", 255), Err(NumError::TooLarge));
    // Text is read as the standard library reads a 32-bit number.
    for text in [
        "", "+", "-", "0", "+0", "-0", "00000000000000", "1", "4294967295", "4294967296", "+4294967295",
        "4294967295x", "99999999999x", "x99999999999", "429496729x5", "42949672950x", "++1", "1+", " 1", "1 ",
        "12a", "a", "٣", "1٣", "99999999999٣",
    ] {
        let ours = parse_unsigned(text, 0xFFFF_FFFF);
        match text.parse::<u32>() {
            Ok(n) => assert_eq!(ours, Ok(n as u64), "{:?}", text),
            Err(e) => assert_eq!(ours.unwrap_err().message(), e.to_string(), "{:?}", text),
        }
    }
    let chars = chars_of("ab123cd");
    assert_eq!(parse_decimal(&chars, 2, 5, 1000), Ok(123));
    assert_eq!(parse_decimal(&chars, 2, 2, 1000), Err(NumError::Empty));
    assert_eq!(parse_decimal(&chars, 1, 5, 1000), Err(NumError::InvalidDigit));
}

#[test]
fn splitting_text() {
    let parts = split_chars(&chars_of("a.bc..d"), '.');
    let texts: Vec<String> = parts.iter().map(|p| p.iter().collect()).collect();
    assert_eq!(texts, vec!["a", "bc", "", "d"]);
    let one = split_chars(&chars_of("abc"), '.');
    assert_eq!(one.len(), 1);
    let none = split_chars(&chars_of(""), '.');
    assert_eq!(none.len(), 1);
    assert!(none[0].is_empty());
}

#[test]
fn vni_edges() {
    assert_eq!(Vni::new(0u32).unwrap().bytes(), [0, 0, 0]);
    assert_eq!(Vni::new(VNI_MAX).unwrap().bytes(), [0xFF, 0xFF, 0xFF]);
    assert_eq!(u32::from(Vni::new(VNI_MAX).unwrap()), 0x00FF_FFFF);
    assert_eq!(Vni::new(0x010203u32).unwrap().bytes(), [1, 2, 3]);
    assert_eq!(Vni::new(65535u16).unwrap().as_u32(), 65535);
    assert_eq!(Vni::from_wire(0, 0x1E, 0x61), Vni::new(7777u32).unwrap());
    for n in [0u32, 1, 255, 256, 65535, 65536, 7777, VNI_MAX] {
        let vni = Vni::new(n).unwrap();
        assert_eq!(u32::from(vni), n);
        let b = vni.bytes();
        assert_eq!(u32::from_be_bytes([0, b[0], b[1], b[2]]), n);
    }
    assert_eq!(Vni::new(VNI_MAX + 1).unwrap_err(), "VNI value exceeds maximum: 16777216");
}

#[test]
fn network_byte_order() {
    let mut out = Vec::new();
    push_u16(&mut out, 0x1234);
    push_u32(&mut out, 0x5678_9ABC);
    push_u48(&mut out, 0xA840_25F7_0065);
    push_u64(&mut out, 0x0102_0304_0506_0708);
    push_u128(&mut out, 0xFD00_0000_00F7_0101_0000_0000_0000_0001);
    assert_eq!(
        out,
        vec![
            0x12, 0x34, 0x56, 0x78, 0x9A, 0xBC, 0xA8, 0x40, 0x25, 0xF7, 0x00, 0x65, 1, 2, 3, 4, 5, 6, 7, 8, 0xFD,
            0, 0, 0, 0, 0xF7, 1, 1, 0, 0, 0, 0, 0, 0, 0, 1
        ]
    );
    assert_eq!(read_u16(&out, 0), 0x1234);
    assert_eq!(read_u32(&out, 2), 0x5678_9ABC);
    assert_eq!(read_u48(&out, 6), 0xA840_25F7_0065);
    assert_eq!(read_u64(&out, 12), 0x0102_0304_0506_0708);
    assert_eq!(read_u128(&out, 20), 0xFD00_0000_00F7_0101_0000_0000_0000_0001);
}

#[test]
fn mac_addresses() {
    let mac = MacAddr::from([0xA8, 0x40, 0x25, 0xF7, 0x00, 0x65]);
    assert_eq!(mac.bytes(), [0xA8, 0x40, 0x25, 0xF7, 0x00, 0x65]);
    assert_eq!(mac.value(), 0xA840_25F7_0065);
    assert_eq!(mac.to_string(), "A8:40:25:F7:00:65");
    assert_eq!(MacAddr::zero().bytes(), [0; 6]);
    assert_eq!(MacAddr::broadcast().bytes(), [0xFF; 6]);
    assert_eq!(MacAddr::from_value(1).bytes(), [0, 0, 0, 0, 0, 1]);
    assert_eq!(MacAddr::from_bytes([0, 0, 0, 0, 1, 0]).value(), 256);
}

#[test]
fn ipv4_addresses() {
    let ip: Ipv4Addr = "192.168.77.101".parse().unwrap();
    assert_eq!(ip.bytes(), [192, 168, 77, 101]);
    assert_eq!(ip.to_string(), "192.168.77.101");
    assert_eq!(Ipv4Addr::from([10, 0, 0, 1]).to_string(), "10.0.0.1");
    assert_eq!(Ipv4Addr::any().to_string(), "0.0.0.0");
    assert_eq!(Ipv4Addr::local_bcast().to_string(), "255.255.255.255");
    assert_eq!("1.2.3".parse::<Ipv4Addr>().unwrap_err(), "malformed ip: 1.2.3");
    assert_eq!("1.2.3.4.5".parse::<Ipv4Addr>().unwrap_err(), "malformed ip: 1.2.3.4.5");
    assert_eq!("1.2.3.256".parse::<Ipv4Addr>().unwrap_err(), "malformed ip: 1.2.3.256");
    assert_eq!("1.2..4".parse::<Ipv4Addr>().unwrap_err(), "malformed ip: 1.2..4");
    assert_eq!("a.b.c.d".parse::<Ipv4Addr>().unwrap_err(), "malformed ip: a.b.c.d");
    assert_eq!("".parse::<Ipv4Addr>().unwrap_err(), "malformed ip: ");
}

#[test]
fn ipv4_blocks() {
    let cidr: Ipv4Cidr = "192.168.77.0/24".parse().unwrap();
    assert_eq!(cidr.prefix_len(), 24);
    assert_eq!(cidr.ip(), "192.168.77.0".parse().unwrap());
    assert_eq!(cidr.to_string(), "192.168.77.0/24");
    assert!(cidr.contains("192.168.77.1".parse().unwrap()));
    assert!(cidr.contains("192.168.77.255".parse().unwrap()));
    assert!(!cidr.contains("192.168.78.1".parse().unwrap()));
    assert!(!cidr.is_default());
    // The bits after the prefix do not count.
    let same: Ipv4Cidr = "192.168.77.99/24".parse().unwrap();
    assert_eq!(same, cidr);
    let all: Ipv4Cidr = "1.2.3.4/0".parse().unwrap();
    assert!(all.is_default());
    assert_eq!(all.to_string(), "0.0.0.0/0");
    assert!(all.contains("8.8.8.8".parse().unwrap()));
    let host = Ipv4Cidr::new("10.1.2.3".parse().unwrap(), 32).unwrap();
    assert!(host.contains("10.1.2.3".parse().unwrap()));
    assert!(!host.contains("10.1.2.2".parse().unwrap()));
    assert!(Ipv4Cidr::new(Ipv4Addr::any(), 33).is_none());
    assert_eq!("10.0.0.0/33".parse::<Ipv4Cidr>().unwrap_err(), "malformed cidr: 10.0.0.0/33");
    assert_eq!("10.0.0.0".parse::<Ipv4Cidr>().unwrap_err(), "malformed cidr: 10.0.0.0");
    assert_eq!("10.0.0/8".parse::<Ipv4Cidr>().unwrap_err(), "malformed cidr: 10.0.0/8");
    assert_eq!("10.0.0.0/8/1".parse::<Ipv4Cidr>().unwrap_err(), "malformed cidr: 10.0.0.0/8/1");
}

// The text of an IPv6 address comes from a library; these would fail if the text were
// handed through unread.
#[test]
fn ipv6_addresses() {
    let ip: Ipv6Addr = "fd00:0:f7:101::1".parse().unwrap();
    assert_eq!(ip, Ipv6Addr::from([0xFD00u16, 0x0000, 0x00F7, 0x0101, 0x0000, 0x0000, 0x0000, 0x0001]));
    assert_eq!(ip.bytes(), vec![0xFD, 0, 0, 0, 0, 0xF7, 1, 1, 0, 0, 0, 0, 0, 0, 0, 1]);
    assert_eq!(ip.to_string(), "fd00::f7:101:0:0:0:1");
    let bytes = Ipv6Addr::from([
        0xFDu8, 0x00, 0x11, 0x22, 0x33, 0x44, 0x01, 0xFF, 0x00, 0x00, 0x00, 0x00, 0x00, 0x00, 0x77, 0x77,
    ]);
    assert_eq!(bytes.to_string(), "fd00:1122:3344:1ff::7777");
    assert_eq!("::".parse::<Ipv6Addr>().unwrap().inner, 0);
    assert_eq!("::1".parse::<Ipv6Addr>().unwrap().inner, 1);
    assert_eq!("fe80::g".parse::<Ipv6Addr>().unwrap_err(), "malformed ip: fe80::g");
    assert_eq!("1.2.3.4".parse::<Ipv6Addr>().unwrap_err(), "malformed ip: 1.2.3.4");
    assert_eq!(IpAddr::Ip6(ip).to_string(), "fd00::f7:101:0:0:0:1");
    assert_eq!(IpAddr::Ip4("1.2.3.4".parse().unwrap()).to_string(), "1.2.3.4");
}

#[test]
fn ipv6_blocks() {
    let cidr: Ipv6Cidr = "fd00:1122:3344:100::/56".parse().unwrap();
    assert_eq!(cidr.prefix_len(), 56);
    assert_eq!(cidr.to_string(), "fd00:1122:3344:100::/56");
    assert!(cidr.contains("fd00:1122:3344:1ff::7777".parse().unwrap()));
    assert!(!cidr.contains("fd00:1122:3344:200::1".parse().unwrap()));
    let masked: Ipv6Cidr = "fd00:1122:3344:1ff::7777/56".parse().unwrap();
    assert_eq!(masked, cidr);
    let all: Ipv6Cidr = "::/0".parse().unwrap();
    assert!(all.is_default());
    assert!(IpCidr::Ip6(all).is_default());
    assert_eq!(IpCidr::Ip6(cidr).prefix_len(), 56);
    assert_eq!(IpCidr::Ip6(cidr).to_string(), "fd00:1122:3344:100::/56");
    assert!(Ipv6Cidr::new(Ipv6Addr { inner: 1 }, 129).is_none());
    assert_eq!(Ipv6Cidr::new(Ipv6Addr { inner: 1 }, 128).unwrap().ip().inner, 1);
    assert_eq!("::/129".parse::<Ipv6Cidr>().unwrap_err(), "malformed cidr: ::/129");
    assert_eq!("zz::/8".parse::<Ipv6Cidr>().unwrap_err(), "malformed cidr: zz::/8");
}

#[test]
fn checksums() {
    // The words 0x0001 and 0xF203 and a last byte 0xF4, padded: 0x0001 + 0xF203 + 0xF400.
    let sum = Checksum::compute(&[0x00, 0x01, 0xF2, 0x03, 0xF4]);
    assert_eq!(sum.inner, 0xE605);
    assert_eq!(sum.finalize(), 0x19FA);
    assert_eq!(Checksum::compute(&[]).inner, 0);
    assert_eq!(Checksum::compute(&[0xFF, 0xFF]).inner, 0xFFFF);
    assert_eq!(Checksum::compute(&[0xFF, 0xFF, 0x00, 0x01]).inner, 0x0001);
    assert_eq!(Checksum::compute_range(&[9, 9, 0x12, 0x34, 9], 2, 4).inner, 0x1234);
    let a = Checksum { inner: 0xFFF0 };
    let b = Checksum { inner: 0x0020 };
    assert_eq!(a.add(b).inner, 0x0011);
    assert_eq!(a.add(b).sub(b).inner, 0xFFF0);
    assert_eq!(Checksum::new().add_u16(7).inner, 7);
    assert_eq!(Checksum::new().add_u32(0x0001_0002).inner, 3);
    assert_eq!(Checksum::new().add_u64(0x0001_0002_0003_0004).inner, 10);
    assert_eq!(Checksum::new().add_u128(1).inner, 1);
    assert_eq!(Checksum::from_field(0x19FA).inner, 0xE605);
}

#[test]
fn small_types() {
    assert_eq!(Direction::In.flip(), Direction::Out);
    assert_eq!(Direction::Out.flip(), Direction::In);
    assert_eq!(Direction::In.to_string(), "in");
    assert_eq!(Direction::Out.to_string(), "out");
    assert_eq!(NoResp::default().unused, 99);
    assert_eq!(Protocol::from_u8(1), Protocol::ICMP);
    assert_eq!(Protocol::from_u8(6), Protocol::TCP);
    assert_eq!(Protocol::from_u8(17), Protocol::UDP);
    assert_eq!(Protocol::from_u8(58), Protocol::ICMPv6);
    assert_eq!(Protocol::from_u8(2), Protocol::Unknown(2));
    assert_eq!(Protocol::Unknown(2).to_u8(), 2);
    assert_eq!(Protocol::TCP.to_u8(), 6);
    assert_eq!(Protocol::ICMPv6.to_string(), "ICMPv6");
    assert_eq!(Protocol::Unknown(47).to_string(), "47");
    assert_eq!(HdrError::Truncated.message("Ether"), "Ether: ReadError{error:NotEnoughBytes}");
    assert_eq!(HdrError::BadVersion { vsn: 5 }.message("IPv4"), "IPv4: BadVersion{vsn:5}");
    assert_eq!(
        HdrError::BadHeaderLen { hdr_len_bytes: 24 }.message("IPv4"),
        "IPv4: BadHeaderLen{hdr_len_bytes:24}"
    );
    assert_eq!(HdrError::BadLength { length: 7 }.message("UDP"), "UDP: BadLength{length:7}");
    assert_eq!(HdrError::BadPort { port: 53 }.message("UDP"), "UDP: BadPort{port:53}");
    assert_eq!(
        HdrError::BadProtoType { proto_type: 2048 }.message("Geneve"),
        "Geneve: BadProtoType{proto_type:2048}"
    );
    assert_eq!(HdrError::TooLong { length: 70000 }.message("Body"), "Body: TooLong{length:70000}");
}

#[test]
fn moments() {
    let t = Moment::from_nanos(5_000_000_000);
    assert_eq!(t.add_secs(60).nanos, 65_000_000_000);
    assert_eq!(t.add_millis(1500).nanos, 6_500_000_000);
    assert_eq!(t.add_secs(u64::MAX).nanos, u64::MAX);
    assert_eq!(t.add_millis(u64::MAX).nanos, u64::MAX);
    assert_eq!(t.add_secs(60).delta_as_millis(t), 60_000);
    assert_eq!(Moment::from_nanos(5_000_999_999).delta_as_millis(t), 0);
    assert_eq!(Moment::from_nanos(5_001_000_000).delta_as_millis(t), 1);
    // A moment that is not later is no time away.
    assert_eq!(t.delta_as_millis(t.add_secs(1)), 0);
    // What a clock has counted becomes a moment, as far as a moment can hold it.
    assert_eq!(Moment::from_elapsed(Some(1_500)).nanos, 1_500);
    assert_eq!(Moment::from_elapsed(Some(u64::MAX as u128)).nanos, u64::MAX);
    assert_eq!(Moment::from_elapsed(Some(u64::MAX as u128 + 1)).nanos, u64::MAX);
    assert_eq!(Moment::from_elapsed(Some(u128::MAX)).nanos, u64::MAX);
    assert_eq!(Moment::from_elapsed(None).nanos, 0);
    // The clock of the machine has left the origin behind.
    assert!(Moment::now().nanos > 1_000_000_000_000_000_000);
}
