//! The Geneve virtual network identifier.

use crate::text::decimal;
use crate::text::decimal_string;
use crate::text::parse_unsigned;
use crate::text::read_unsigned;
use crate::text::NumError;
use std::cmp::Ordering;
use vstd::prelude::*;
use vstd::std_specs::convert::FromSpec;
use vstd::string::StringExecFns;

verus! {

/// The largest value a 24-bit identifier can take.
pub const VNI_MAX: u32 = 0x00FF_FFFF;

/// An unsigned integer that widens to a `u32` without loss.
pub trait Widen: Sized {
    /// The value as a `u32`.
    spec fn widen_spec(self) -> u32;

    /// The value as a `u32`.
    fn widen(self) -> (r: u32)
        ensures
            r == self.widen_spec(),
    ;
}

impl Widen for u8 {
    open spec fn widen_spec(self) -> u32 {
        self as u32
    }

    fn widen(self) -> (r: u32) {
        self as u32
    }
}

impl Widen for u16 {
    open spec fn widen_spec(self) -> u32 {
        self as u32
    }

    fn widen(self) -> (r: u32) {
        self as u32
    }
}

impl Widen for u32 {
    open spec fn widen_spec(self) -> u32 {
        self
    }

    fn widen(self) -> (r: u32) {
        self
    }
}

/// A Geneve Virtual Network Identifier (VNI): a 24-bit number.
///
/// Its view is the number itself. Identifiers are ordered as their numbers are.
#[derive(Clone, Copy, Debug, PartialEq, Eq, Structural, Ord, Hash)]
pub struct Vni {
    inner: u32,
}

impl View for Vni {
    type V = u32;

    closed spec fn view(&self) -> u32 {
        self.inner
    }
}

/// The message with which a value above [`VNI_MAX`] is refused.
pub open spec fn vni_too_large(n: u32) -> Seq<char> {
    "VNI value exceeds maximum: "@ + decimal(n as nat)
}

/// The three bytes of `n` in network order (most significant first).
pub open spec fn vni_bytes(n: u32) -> Seq<u8> {
    seq![(n / 65536 % 256) as u8, (n / 256 % 256) as u8, (n % 256) as u8]
}

/// The number that four bytes in network order write.
pub open spec fn u32_from_be(b0: u8, b1: u8, b2: u8, b3: u8) -> u32 {
    (b0 as u32 * 16777216 + b1 as u32 * 65536 + b2 as u32 * 256 + b3 as u32) as u32
}

impl Vni {
    #[verifier::type_invariant]
    spec fn in_range(self) -> bool {
        self.inner <= VNI_MAX
    }

    /// The identifier with the value `n`.
    pub closed spec fn of(n: u32) -> Vni {
        Vni { inner: n }
    }

    /// The value of the identifier made from `n` is `n`.
    pub broadcast proof fn lemma_of_view(n: u32)
        ensures
            #[trigger] Vni::of(n)@ == n,
    {
    }

    /// An identifier is the one made from its value: identifiers with one value are equal.
    pub broadcast proof fn lemma_view_of(v: Vni)
        ensures
            #[trigger] Vni::of(v@) == v,
    {
    }

    /// The identifier that three bytes in network order write.
    pub fn from_wire(b0: u8, b1: u8, b2: u8) -> (r: Vni)
        ensures
            r == Vni::of(u32_from_be(0, b0, b1, b2)),
            r@ == u32_from_be(0, b0, b1, b2),
    {
        Vni { inner: (b0 as u32) * 65536 + (b1 as u32) * 256 + (b2 as u32) }
    }

    /// The identifier as a number; never above [`VNI_MAX`].
    pub fn as_u32(&self) -> (r: u32)
        ensures
            r == self@,
            r <= VNI_MAX,
            r == u32_from_be(0, vni_bytes(self@)[0], vni_bytes(self@)[1], vni_bytes(self@)[2]),
    {
        proof {
            use_type_invariant(self);
        }
        self.inner
    }

    /// The bytes that represent this VNI, in network order.
    pub fn bytes(&self) -> (r: [u8; 3])
        ensures
            r@ == vni_bytes(self@),
    {
        proof {
            use_type_invariant(self);
        }
        let v = self.inner;
        let r = [(v / 65536 % 256) as u8, (v / 256 % 256) as u8, (v % 256) as u8];
        assert(r@ =~= vni_bytes(self@));
        r
    }

    /// What [`Vni::new`] returns for the number `n`.
    pub open spec fn new_spec(n: u32, r: Result<Vni, String>) -> bool {
        match r {
            Ok(v) => n <= VNI_MAX && v == Vni::of(n),
            Err(e) => n > VNI_MAX && e@ == vni_too_large(n),
        }
    }

    /// Creates a VNI from an unsigned integer of at most 32 bits.
    ///
    /// A value above the 24-bit maximum is refused with a message that names it.
    pub fn new<N: Widen>(val: N) -> (r: Result<Vni, String>)
        ensures
            Vni::new_spec(val.widen_spec(), r),
    {
        let n: u32 = val.widen();
        if n > VNI_MAX {
            let mut msg = "VNI value exceeds maximum: ".to_owned();
            let digits = decimal_string(n as u64);
            msg.append(digits.as_str());
            return Err(msg);
        }
        Ok(Vni { inner: n })
    }

    /// What [`Vni::parse`] returns for the text `s`.
    pub open spec fn parse_spec(s: Seq<char>, r: Result<Vni, String>) -> bool {
        match read_unsigned(s, u32::MAX as nat) {
            Ok(n) => Vni::new_spec(n as u32, r),
            Err(e) => r matches Err(msg) && msg@ == e.text(),
        }
    }

    /// Reads a VNI from its decimal text.
    ///
    /// Text that is no 32-bit number is refused with the words of the number error; a number
    /// above the 24-bit maximum as in [`Vni::new`].
    pub fn parse(val: &str) -> (r: Result<Vni, String>)
        ensures
            Vni::parse_spec(val@, r),
    {
        match parse_unsigned(val, 0xFFFF_FFFF) {
            Ok(n) => Vni::new(n as u32),
            Err(e) => Err(e.message()),
        }
    }

    /// The decimal text of the identifier.
    pub fn to_string(&self) -> (r: String)
        ensures
            r@ == decimal(self@ as nat),
    {
        decimal_string(self.as_u32() as u64)
    }
}

impl Default for Vni {
    fn default() -> (r: Vni)
        ensures
            r@ == 0,
    {
        Vni { inner: 0 }
    }
}

impl From<Vni> for u32 {
    fn from(vni: Vni) -> (r: u32) {
        vni.as_u32()
    }
}

impl vstd::std_specs::convert::FromSpecImpl<Vni> for u32 {
    open spec fn obeys_from_spec() -> bool {
        true
    }

    open spec fn from_spec(v: Vni) -> u32 {
        v@
    }
}

impl PartialOrd for Vni {
    /// Compares two identifiers as numbers.
    fn partial_cmp(&self, other: &Vni) -> (r: Option<Ordering>) {
        if self.inner < other.inner {
            Some(Ordering::Less)
        } else if self.inner == other.inner {
            Some(Ordering::Equal)
        } else {
            Some(Ordering::Greater)
        }
    }
}

impl vstd::std_specs::cmp::PartialOrdSpecImpl for Vni {
    open spec fn obeys_partial_cmp_spec() -> bool {
        true
    }

    open spec fn partial_cmp_spec(&self, other: &Vni) -> Option<Ordering> {
        if self@ < other@ {
            Some(Ordering::Less)
        } else if self@ == other@ {
            Some(Ordering::Equal)
        } else {
            Some(Ordering::Greater)
        }
    }
}

impl std::str::FromStr for Vni {
    type Err = String;

    /// Reads a VNI from its decimal text, as [`Vni::parse`] does.
    fn from_str(val: &str) -> (r: Result<Vni, String>)
        ensures
            Vni::parse_spec(val@, r),
    {
        Vni::parse(val)
    }
}

/// A VNI built from a 24-bit number reads back as that number, and its three bytes in
/// network order write that number.
pub proof fn lemma_vni_round_trip(n: u32, r: Result<Vni, String>)
    requires
        n <= VNI_MAX,
        Vni::new_spec(n, r),
    ensures
        r is Ok,
        <u32 as FromSpec<Vni>>::from_spec(r->Ok_0) == n,
        u32_from_be(0, vni_bytes(r->Ok_0@)[0], vni_bytes(r->Ok_0@)[1], vni_bytes(r->Ok_0@)[2]) == n,
{
}

} // verus!
