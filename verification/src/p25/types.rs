//! Domain types for P25 protocol values.
//!
//! All types are newtypes wrapping primitives to ensure type safety and
//! prevent mixing up bare integers.

use vstd::prelude::*;
use vstd::string::StringExecFns;
use crate::p25::text::{decimal, padded_digits, push_decimal, push_padded};

verus! {

/// A two-bit symbol (dibit) from C4FM demodulation.
///
/// Values are constrained to 0..=3 (2 bits).
#[derive(Debug, Clone, Copy, PartialEq, Eq, Hash)]
pub struct Dibit(u8);

impl View for Dibit {
    type V = u8;

    closed spec fn view(&self) -> u8 {
        self.0 % 4
    }
}

impl Dibit {
    #[verifier::type_invariant]
    spec fn inv(self) -> bool {
        self.0 < 4
    }

    /// Create a new dibit from the two least significant bits of the input.
    pub fn new(value: u8) -> (d: Dibit)
        ensures
            d@ == value % 4,
    {
        proof { crate::p25::bitwise::lemma_mask_u8(value); }
        Dibit(value & 3)
    }

    /// Return the 2-bit value as a u8.
    pub fn bits(self) -> (r: u8)
        ensures
            r == self@,
            r < 4,
    {
        proof {
            use_type_invariant(&self);
        }
        self.0
    }
}

/// Every dibit's value fits in two bits.
pub broadcast proof fn lemma_dibit_bound(d: Dibit)
    ensures
        #[trigger] d@ < 4,
{
}

/// A six-bit symbol (hexbit) used in Reed-Solomon coding.
///
/// Values are constrained to 0..=63 (6 bits). Reed-Solomon codes in P25
/// operate over GF(2^6), where each symbol is a hexbit.
#[derive(Debug, Clone, Copy, PartialEq, Eq, Hash)]
pub struct Hexbit(u8);

impl View for Hexbit {
    type V = u8;

    closed spec fn view(&self) -> u8 {
        self.0 % 64
    }
}

impl Hexbit {
    #[verifier::type_invariant]
    spec fn inv(self) -> bool {
        self.0 < 64
    }

    /// Create a new hexbit from the six least significant bits of the input.
    pub fn new(value: u8) -> (h: Hexbit)
        ensures
            h@ == value % 64,
    {
        proof { crate::p25::bitwise::lemma_mask_u8(value); }
        Hexbit(value & 0x3F)
    }

    /// Return the 6-bit value as a u8.
    pub fn bits(self) -> (r: u8)
        ensures
            r == self@,
            r < 64,
    {
        proof {
            use_type_invariant(&self);
        }
        self.0
    }
}

/// Every hexbit's value fits in six bits.
pub broadcast proof fn lemma_hexbit_bound(h: Hexbit)
    ensures
        #[trigger] h@ < 64,
{
}

impl Default for Hexbit {
    /// The zero hexbit.
    fn default() -> (h: Hexbit)
        ensures
            h@ == 0,
    {
        Hexbit(0)
    }
}

/// A frequency in hertz.
#[derive(Debug, Clone, Copy, PartialEq, Eq, PartialOrd, Ord, Hash)]
pub struct Frequency(u64);

impl View for Frequency {
    type V = u64;

    closed spec fn view(&self) -> u64 {
        self.0
    }
}

impl Frequency {
    /// Create a frequency from a value in hertz.
    pub fn from_hz(hz: u64) -> (f: Frequency)
        ensures
            f@ == hz,
    {
        Frequency(hz)
    }

    /// Return the frequency in hertz.
    pub fn hz(self) -> (r: u64)
        ensures
            r == self@,
    {
        self.0
    }
}

/// A P25 talkgroup identifier (16 bits).
#[derive(Debug, Clone, Copy, PartialEq, Eq, PartialOrd, Ord, Hash)]
pub struct TalkgroupId(u16);

impl View for TalkgroupId {
    type V = u16;

    closed spec fn view(&self) -> u16 {
        self.0
    }
}

impl TalkgroupId {
    /// Create a new talkgroup identifier.
    pub fn new(id: u16) -> (t: TalkgroupId)
        ensures
            t@ == id,
    {
        TalkgroupId(id)
    }

    /// Return the raw talkgroup ID value.
    pub fn value(self) -> (r: u16)
        ensures
            r == self@,
    {
        self.0
    }
}

/// A P25 Network Access Code (12 bits).
#[derive(Debug, Clone, Copy, PartialEq, Eq, Hash)]
pub struct Nac(u16);

impl View for Nac {
    type V = u16;

    closed spec fn view(&self) -> u16 {
        self.0 % 4096
    }
}

impl Nac {
    #[verifier::type_invariant]
    spec fn inv(self) -> bool {
        self.0 < 4096
    }

    /// Create a NAC from the 12 least significant bits of the input.
    pub fn new(value: u16) -> (n: Nac)
        ensures
            n@ == value % 4096,
    {
        proof { crate::p25::bitwise::lemma_mask_u16(value); }
        Nac(value & 0x0FFF)
    }

    /// Return the raw NAC value.
    pub fn value(self) -> (r: u16)
        ensures
            r == self@,
            r < 4096,
    {
        proof {
            use_type_invariant(&self);
        }
        self.0
    }
}

/// A P25 unit (subscriber radio) identifier (24 bits).
#[derive(Debug, Clone, Copy, PartialEq, Eq, PartialOrd, Ord, Hash)]
pub struct SourceId(u32);

impl View for SourceId {
    type V = u32;

    closed spec fn view(&self) -> u32 {
        self.0 % 0x100_0000
    }
}

impl SourceId {
    #[verifier::type_invariant]
    spec fn inv(self) -> bool {
        self.0 < 0x100_0000
    }

    /// Create a source ID from the 24 least significant bits of the input.
    pub fn new(id: u32) -> (s: SourceId)
        ensures
            s@ == id % 0x100_0000,
    {
        proof { crate::p25::bitwise::lemma_mask_u32(id); }
        SourceId(id & 0x00FF_FFFF)
    }

    /// Return the raw source ID value.
    pub fn value(self) -> (r: u32)
        ensures
            r == self@,
            r < 0x100_0000,
    {
        proof {
            use_type_invariant(&self);
        }
        self.0
    }
}

/// A P25 system identifier (12 bits).
#[derive(Debug, Clone, Copy, PartialEq, Eq, Hash)]
pub struct SystemId(u16);

impl View for SystemId {
    type V = u16;

    closed spec fn view(&self) -> u16 {
        self.0 % 4096
    }
}

impl SystemId {
    #[verifier::type_invariant]
    spec fn inv(self) -> bool {
        self.0 < 4096
    }

    /// Create a system ID from the 12 least significant bits of the input.
    pub fn new(id: u16) -> (s: SystemId)
        ensures
            s@ == id % 4096,
    {
        proof { crate::p25::bitwise::lemma_mask_u16(id); }
        SystemId(id & 0x0FFF)
    }

    /// Return the raw system ID value.
    pub fn value(self) -> (r: u16)
        ensures
            r == self@,
            r < 4096,
    {
        proof {
            use_type_invariant(&self);
        }
        self.0
    }
}

/// A P25 Wide Area Communication Network identifier (20 bits).
#[derive(Debug, Clone, Copy, PartialEq, Eq, Hash)]
pub struct Wacn(u32);

impl View for Wacn {
    type V = u32;

    closed spec fn view(&self) -> u32 {
        self.0 % 0x10_0000
    }
}

impl Wacn {
    #[verifier::type_invariant]
    spec fn inv(self) -> bool {
        self.0 < 0x10_0000
    }

    /// Create a WACN from the 20 least significant bits of the input.
    pub fn new(id: u32) -> (w: Wacn)
        ensures
            w@ == id % 0x10_0000,
    {
        proof { crate::p25::bitwise::lemma_mask_u32(id); }
        Wacn(id & 0x000F_FFFF)
    }

    /// Return the raw WACN value.
    pub fn value(self) -> (r: u32)
        ensures
            r == self@,
            r < 0x10_0000,
    {
        proof {
            use_type_invariant(&self);
        }
        self.0
    }
}

/// An RF subsystem identifier (8 bits).
#[derive(Debug, Clone, Copy, PartialEq, Eq, Hash)]
pub struct RfssId(u8);

impl View for RfssId {
    type V = u8;

    closed spec fn view(&self) -> u8 {
        self.0
    }
}

impl RfssId {
    /// Create a new RFSS identifier.
    pub fn new(id: u8) -> (r: RfssId)
        ensures
            r@ == id,
    {
        RfssId(id)
    }

    /// Return the raw RFSS ID value.
    pub fn value(self) -> (r: u8)
        ensures
            r == self@,
    {
        self.0
    }
}

/// A site identifier (8 bits).
#[derive(Debug, Clone, Copy, PartialEq, Eq, Hash)]
pub struct SiteId(u8);

impl View for SiteId {
    type V = u8;

    closed spec fn view(&self) -> u8 {
        self.0
    }
}

impl SiteId {
    /// Create a new site identifier.
    pub fn new(id: u8) -> (s: SiteId)
        ensures
            s@ == id,
    {
        SiteId(id)
    }

    /// Return the raw site ID value.
    pub fn value(self) -> (r: u8)
        ensures
            r == self@,
    {
        self.0
    }
}

/// A 16-bit channel number used in TSBK channel grants and identifier tables.
#[derive(Debug, Clone, Copy, PartialEq, Eq, Hash)]
pub struct ChannelNumber(u16);

impl View for ChannelNumber {
    type V = u16;

    closed spec fn view(&self) -> u16 {
        self.0
    }
}

impl ChannelNumber {
    /// Create a new channel number.
    pub fn new(value: u16) -> (c: ChannelNumber)
        ensures
            c@ == value,
    {
        ChannelNumber(value)
    }

    /// Return the raw channel number value.
    pub fn value(self) -> (r: u16)
        ensures
            r == self@,
    {
        self.0
    }

    /// Extract the 4-bit identifier prefix.
    pub fn identifier(self) -> (r: u8)
        ensures
            r == self@ / 4096,
    {
        let v = self.0;
        proof { crate::p25::bitwise::lemma_mask_u16(v); }
        ((v >> 12) & 0x0F) as u8
    }

    /// Extract the 12-bit channel index within the identifier band.
    pub fn index(self) -> (r: u16)
        ensures
            r == self@ % 4096,
    {
        let v = self.0;
        proof { crate::p25::bitwise::lemma_mask_u16(v); }
        v & 0x0FFF
    }
}

/// A 4-bit channel identifier prefix selecting an identifier table entry.
#[derive(Debug, Clone, Copy, PartialEq, Eq, Hash)]
pub struct ChannelIdentifier(pub u8);

/// A 16-bit logical channel ID: a 4-bit identifier prefix followed by a
/// 12-bit channel number within that identifier's band.
#[derive(Debug, Clone, Copy, PartialEq, Eq, Hash)]
pub struct ChannelId(pub u16);

impl ChannelId {
    /// The 4-bit identifier prefix (upper 4 bits).
    pub fn identifier(self) -> (r: ChannelIdentifier)
        ensures
            r.0 == self.0 / 4096,
    {
        let v = self.0;
        proof { crate::p25::bitwise::lemma_mask_u16(v); }
        ChannelIdentifier(((v >> 12) & 0x0F) as u8)
    }

    /// The 12-bit channel number within the identifier band (lower 12 bits).
    pub fn channel_number(self) -> (r: u16)
        ensures
            r == self.0 % 4096,
    {
        let v = self.0;
        proof { crate::p25::bitwise::lemma_mask_u16(v); }
        v & 0x0FFF
    }
}

/// A 24-bit radio unit identifier.
#[derive(Debug, Clone, Copy, PartialEq, Eq, Hash)]
pub struct UnitId(pub u32);

/// An 8-bit manufacturer identifier; 0x00 is standard P25.
#[derive(Debug, Clone, Copy, PartialEq, Eq, Hash)]
pub struct ManufacturerId(pub u8);

impl Dibit {
    /// The display text: the two binary digits of the value.
    pub fn to_string(&self) -> (r: String)
        ensures
            r@ == padded_digits(self@ as nat, 2, 2),
    {
        let mut s = String::new();
        push_padded(&mut s, self.bits() as u64, 2, 2);
        s
    }
}

impl Hexbit {
    /// The display text: `0o` and the two octal digits of the value.
    pub fn to_string(&self) -> (r: String)
        ensures
            r@ == "0o"@ + padded_digits(self@ as nat, 8, 2),
    {
        let mut s = String::from_str("0o");
        push_padded(&mut s, self.bits() as u64, 8, 2);
        s
    }
}

impl TalkgroupId {
    /// The display text: the decimal value.
    pub fn to_string(&self) -> (r: String)
        ensures
            r@ == decimal(self@ as nat),
    {
        let mut s = String::new();
        push_decimal(&mut s, self.value() as u64);
        s
    }
}

impl Nac {
    /// The display text: `0x` and three hexadecimal digits.
    pub fn to_string(&self) -> (r: String)
        ensures
            r@ == "0x"@ + padded_digits(self@ as nat, 16, 3),
    {
        let mut s = String::from_str("0x");
        push_padded(&mut s, self.value() as u64, 16, 3);
        s
    }
}

impl SourceId {
    /// The display text: the decimal value.
    pub fn to_string(&self) -> (r: String)
        ensures
            r@ == decimal(self@ as nat),
    {
        let mut s = String::new();
        push_decimal(&mut s, self.value() as u64);
        s
    }
}

impl SystemId {
    /// The display text: `0x` and three hexadecimal digits.
    pub fn to_string(&self) -> (r: String)
        ensures
            r@ == "0x"@ + padded_digits(self@ as nat, 16, 3),
    {
        let mut s = String::from_str("0x");
        push_padded(&mut s, self.value() as u64, 16, 3);
        s
    }
}

impl Wacn {
    /// The display text: `0x` and five hexadecimal digits.
    pub fn to_string(&self) -> (r: String)
        ensures
            r@ == "0x"@ + padded_digits(self@ as nat, 16, 5),
    {
        let mut s = String::from_str("0x");
        push_padded(&mut s, self.value() as u64, 16, 5);
        s
    }
}

impl RfssId {
    /// The display text: the decimal value.
    pub fn to_string(&self) -> (r: String)
        ensures
            r@ == decimal(self@ as nat),
    {
        let mut s = String::new();
        push_decimal(&mut s, self.value() as u64);
        s
    }
}

impl SiteId {
    /// The display text: the decimal value.
    pub fn to_string(&self) -> (r: String)
        ensures
            r@ == decimal(self@ as nat),
    {
        let mut s = String::new();
        push_decimal(&mut s, self.value() as u64);
        s
    }
}

impl ChannelNumber {
    /// The display text: `0x` and four hexadecimal digits.
    pub fn to_string(&self) -> (r: String)
        ensures
            r@ == "0x"@ + padded_digits(self@ as nat, 16, 4),
    {
        let mut s = String::from_str("0x");
        push_padded(&mut s, self.value() as u64, 16, 4);
        s
    }
}

/// The number of tens of hertz in `hz`, rounded half up.
pub open spec fn rounded_tens(hz: u64) -> nat {
    (hz / 10 + if hz % 10 >= 5 { 1nat } else { 0nat }) as nat
}

/// The display text of a frequency: megahertz with five decimal places.
pub open spec fn frequency_text(hz: u64) -> Seq<char> {
    decimal(rounded_tens(hz) / 100000) + "."@ + padded_digits(rounded_tens(hz) % 100000, 10, 5) + " MHz"@
}

impl Frequency {
    /// The display text: megahertz with five decimal places, rounded half
    /// up at the ten hertz digit.
    pub fn to_string(&self) -> (r: String)
        ensures
            r@ == frequency_text(self@),
    {
        let hz = self.hz();
        let tens = hz / 10 + if hz % 10 >= 5 { 1 } else { 0 };
        let mut s = String::new();
        push_decimal(&mut s, tens / 100000);
        s.append(".");
        push_padded(&mut s, tens % 100000, 10, 5);
        s.append(" MHz");
        s
    }
}

} // verus!
