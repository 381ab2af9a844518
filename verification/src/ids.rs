//! Typed identifiers: sequence positions, members and communities.

use vstd::prelude::*;
use vstd::string::*;

use crate::text::{decimal, push_decimal};

verus! {

/// Common interface for typed `u64` wrappers used as identifiers or sequence positions.
pub trait IntegerIdentifier: Sized {
    /// Returns an instance initialised to zero (the smallest valid value).
    fn zero() -> Self;

    /// Wraps a raw `u64` as a typed identifier.
    fn from_u64(id: u64) -> Self;

    /// Returns the underlying `u64`.
    fn as_u64(&self) -> u64;
}

/// A position in the shared event/effect log sequence.
///
/// Sequence IDs start at 1 and increase monotonically. Both events and effects
/// draw from the same counter, so their IDs are globally ordered.
#[derive(Debug, Clone, Copy, PartialEq, Eq, Structural, Hash, PartialOrd, Ord)]
pub struct SequenceId(pub u64);

impl SequenceId {
    /// Wraps `n`.
    pub fn new(n: u64) -> (s: SequenceId)
        ensures
            s.0 == n,
    {
        SequenceId(n)
    }

    /// The rendering `SequenceId(<n>)`.
    pub fn to_display_string(&self) -> (s: String)
        ensures
            s@ == "SequenceId("@ + decimal(self.0 as nat) + ")"@,
    {
        let mut s = String::from_str("SequenceId(");
        push_decimal(&mut s, self.0);
        s.append(")");
        s
    }
}

impl IntegerIdentifier for SequenceId {
    fn zero() -> (s: SequenceId)
        ensures
            s.0 == 0,
    {
        SequenceId(0)
    }

    fn from_u64(id: u64) -> (s: SequenceId)
        ensures
            s.0 == id,
    {
        SequenceId(id)
    }

    fn as_u64(&self) -> (n: u64)
        ensures
            n == self.0,
    {
        self.0
    }
}

/// Types that occupy a position in the shared event/effect log sequence.
pub trait HasSequenceId {
    /// Returns the position of this entry in the shared event/effect log sequence.
    fn sequence_id(&self) -> SequenceId;
}

/// The number whose big-endian bytes are `s`.
pub open spec fn be_value(s: Seq<u8>) -> nat
    decreases s.len(),
{
    if s.len() == 0 {
        0
    } else {
        be_value(s.drop_last()) * 256 + s.last() as nat
    }
}

/// Whether `v` is the value of a version-4 UUID of the RFC 4122 variant: its
/// version nibble (bits 76 to 79) is 4 and its variant bits (62 and 63) are `10`.
pub open spec fn is_v4_uuid(v: u128) -> bool {
    (v >> 76u128) & 0xfu128 == 4u128 && (v >> 62u128) & 3u128 == 2u128
}

/// A fresh random (version 4) UUID as its 128-bit value.
///
/// Calls `uuid::Uuid::new_v4` and `Uuid::as_u128`. `new_v4` masks random
/// bits and sets the version nibble to 4 and the variant bits to `10`; the
/// rest is random, so nothing more is promised.
#[verifier::external_body]
fn random_uuid_value() -> (v: u128)
    ensures
        is_v4_uuid(v),
{
    uuid::Uuid::new_v4().as_u128()
}

/// The 128-bit value of the UUID whose 16 bytes are `bytes`.
///
/// Calls `uuid::Uuid::from_slice`, which accepts exactly 16 bytes and keeps
/// them in order, and `Uuid::as_u128`, which reads them as a big-endian number.
#[verifier::external_body]
fn uuid_value_from_slice(bytes: &[u8]) -> (v: u128)
    requires
        bytes@.len() == 16,
    ensures
        v as nat == be_value(bytes@),
{
    match uuid::Uuid::from_slice(bytes) {
        Ok(u) => u.as_u128(),
        Err(_) => 0,
    }
}

/// The 16 bytes of the UUID with 128-bit value `v`.
///
/// Calls `uuid::Uuid::from_u128`, which stores `v` in big-endian order, and
/// `Uuid::as_bytes`.
#[verifier::external_body]
fn uuid_bytes_of_value(v: u128) -> (bytes: Vec<u8>)
    ensures
        bytes@.len() == 16,
        be_value(bytes@) == v as nat,
{
    uuid::Uuid::from_u128(v).as_bytes().to_vec()
}

/// The lowercase hexadecimal digit for `d < 16`.
pub open spec fn hex_digit(d: nat) -> char {
    if d < 10 {
        crate::text::digit_char(d)
    } else if d == 10 { 'a' }
    else if d == 11 { 'b' }
    else if d == 12 { 'c' }
    else if d == 13 { 'd' }
    else if d == 14 { 'e' }
    else { 'f' }
}

/// The last `width` lowercase hexadecimal digits of `n`, most significant first.
pub open spec fn hex_fixed(n: nat, width: nat) -> Seq<char>
    decreases width,
{
    if width == 0 {
        Seq::empty()
    } else {
        hex_fixed(n / 16, (width - 1) as nat).push(hex_digit(n % 16))
    }
}

/// The hyphenated text of the UUID with 128-bit value `v`: its 32 lowercase
/// hexadecimal digits in groups of 8, 4, 4, 4 and 12 joined by `-`.
pub open spec fn uuid_text(v: u128) -> Seq<char> {
    let h = hex_fixed(v as nat, 32);
    h.subrange(0, 8) + seq!['-'] + h.subrange(8, 12) + seq!['-'] + h.subrange(12, 16) + seq!['-']
        + h.subrange(16, 20) + seq!['-'] + h.subrange(20, 32)
}

/// The hyphenated text of the UUID with 128-bit value `v`.
///
/// Calls `uuid::Uuid::from_u128` and the `Display` of `Uuid`, which writes the
/// lowercase hyphenated form.
#[verifier::external_body]
fn uuid_string(v: u128) -> (s: String)
    ensures
        s@ == uuid_text(v),
{
    uuid::Uuid::from_u128(v).to_string()
}

/// Typed identifier for a member: the 128-bit value of a UUID.
#[derive(Debug, Clone, Copy, PartialEq, Eq, Structural, Hash, PartialOrd, Ord)]
pub struct MemberId(pub u128);

/// Typed identifier for a community: the 128-bit value of a UUID.
#[derive(Debug, Clone, Copy, PartialEq, Eq, Structural, Hash, PartialOrd, Ord)]
pub struct CommunityId(pub u128);

impl MemberId {
    /// Generates a new random identifier: a version-4 UUID.
    pub fn new() -> (id: MemberId)
        ensures
            is_v4_uuid(id.0),
    {
        MemberId(random_uuid_value())
    }

    /// The identifier whose UUID bytes are `bytes` (big-endian), which must be 16.
    pub fn from_uuid_bytes(bytes: &[u8]) -> (id: MemberId)
        requires
            bytes@.len() == 16,
        ensures
            id.0 as nat == be_value(bytes@),
    {
        MemberId(uuid_value_from_slice(bytes))
    }

    /// The 16 UUID bytes of this identifier, big-endian.
    pub fn uuid_bytes(&self) -> (bytes: Vec<u8>)
        ensures
            bytes@.len() == 16,
            be_value(bytes@) == self.0 as nat,
    {
        uuid_bytes_of_value(self.0)
    }

    /// The hyphenated UUID text of this identifier.
    pub fn to_uuid_string(&self) -> (s: String)
        ensures
            s@ == uuid_text(self.0),
    {
        uuid_string(self.0)
    }
}

impl CommunityId {
    /// Generates a new random identifier: a version-4 UUID.
    pub fn new() -> (id: CommunityId)
        ensures
            is_v4_uuid(id.0),
    {
        CommunityId(random_uuid_value())
    }

    /// The identifier whose UUID bytes are `bytes` (big-endian), which must be 16.
    pub fn from_uuid_bytes(bytes: &[u8]) -> (id: CommunityId)
        requires
            bytes@.len() == 16,
        ensures
            id.0 as nat == be_value(bytes@),
    {
        CommunityId(uuid_value_from_slice(bytes))
    }

    /// The 16 UUID bytes of this identifier, big-endian.
    pub fn uuid_bytes(&self) -> (bytes: Vec<u8>)
        ensures
            bytes@.len() == 16,
            be_value(bytes@) == self.0 as nat,
    {
        uuid_bytes_of_value(self.0)
    }

    /// The hyphenated UUID text of this identifier.
    pub fn to_uuid_string(&self) -> (s: String)
        ensures
            s@ == uuid_text(self.0),
    {
        uuid_string(self.0)
    }
}

/// Types that belong to a community.
pub trait HasCommunityId {
    /// The community this value belongs to.
    fn community_id(&self) -> CommunityId;
}

} // verus!
