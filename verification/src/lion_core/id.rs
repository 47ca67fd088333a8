//! Strongly-typed identifiers: a UUID, held as its 128-bit value, tagged with the kind of
//! entity it names.

use std::marker::PhantomData;
use vstd::arithmetic::power::pow;
use vstd::prelude::*;

verus! {

/// The errors of the `uuid` crate's parser.
#[verifier::external_type_specification]
#[verifier::external_body]
pub struct ExUuidError(uuid::Error);

/// The `uuid` crate's UUID type.
#[verifier::external_type_specification]
#[verifier::external_body]
pub struct ExUuid(uuid::Uuid);

/// The lowercase hexadecimal digit for a value below sixteen.
pub open spec fn hex_digit(d: nat) -> char {
    if d < 10 {
        ('0' as int + d) as char
    } else {
        ('a' as int + d - 10) as char
    }
}

/// The `i`-th hexadecimal digit of a 128-bit value, most significant first.
pub open spec fn nibble(bits: u128, i: int) -> nat {
    ((bits as nat) / pow(16, (31 - i) as nat) as nat) % 16
}

/// The `k`-th byte of a 128-bit value in big-endian order.
pub open spec fn be_byte(bits: u128, k: int) -> u8 {
    (((bits as nat) / pow(256, (15 - k) as nat) as nat) % 256) as u8
}

/// The 32 lowercase hexadecimal digits of a 128-bit value.
pub open spec fn simple_hex(bits: u128) -> Seq<char> {
    Seq::new(32, |i: int| hex_digit(nibble(bits, i)))
}

/// The hyphenated text of a UUID: its hexadecimal digits in groups of 8, 4, 4, 4 and 12.
pub open spec fn uuid_text(bits: u128) -> Seq<char> {
    let s = simple_hex(bits);
    s.subrange(0, 8) + seq!['-'] + s.subrange(8, 12) + seq!['-'] + s.subrange(12, 16) + seq!['-']
        + s.subrange(16, 20) + seq!['-'] + s.subrange(20, 32)
}

/// The value that `uuid::Uuid::parse_str` reads from a text, or `None` where it fails.
pub uninterp spec fn uuid_parsed(s: Seq<char>) -> Option<u128>;

/// A 128-bit value in the form of a random UUID: version 4 in its version digit, and the
/// RFC 4122 variant (binary `10`) in the top bits of its variant digit.
pub open spec fn is_random_v4(bits: u128) -> bool {
    nibble(bits, 12) == 4 && nibble(bits, 16) / 4 == 2
}

/// Draws a random version-4 UUID with `uuid::Uuid::new_v4` and gives its 128-bit value. The
/// crate masks random bits and sets the version digit to 4 and the variant bits to `10`
/// (`& 0xFFFFFFFFFFFF4FFFBFFFFFFFFFFFFFFF | 0x40008000000000000000`); only that form is
/// claimed, the rest is random.
#[verifier::external_body]
fn random_uuid_bits() -> (r: u128)
    ensures
        is_random_v4(r),
{
    uuid::Uuid::new_v4().as_u128()
}

/// The 128-bit value of a UUID, as `uuid::Uuid::as_u128` gives it.
pub uninterp spec fn uuid_u128(u: uuid::Uuid) -> u128;

/// Formats a UUID with the `uuid` crate's `Display`, which writes the hyphenated lowercase
/// form of its big-endian bytes (`Uuid::from_u128` takes the value as big-endian).
#[verifier::external_body]
pub(crate) fn uuid_bits_text(bits: u128) -> (r: String)
    ensures
        r@ == uuid_text(bits),
{
    uuid::Uuid::from_u128(bits).to_string()
}

/// The 16 bytes of a UUID, by `uuid::Uuid::as_bytes`: the big-endian bytes of its value.
#[verifier::external_body]
fn uuid_bits_bytes(bits: u128) -> (r: Vec<u8>)
    ensures
        r@.len() == 16,
        forall|k: int| 0 <= k < 16 ==> r@[k] == be_byte(bits, k),
{
    uuid::Uuid::from_u128(bits).as_bytes().to_vec()
}

/// Parses a UUID with `uuid::Uuid::parse_str` and gives its 128-bit value. The accepted
/// forms are the crate's own; the result is named, not stated.
#[verifier::external_body]
fn parse_uuid_bits(s: &str) -> (r: Result<u128, uuid::Error>)
    ensures
        match r {
            Ok(b) => uuid_parsed(s@) == Some(b),
            Err(_) => uuid_parsed(s@) is None,
        },
{
    match uuid::Uuid::parse_str(s) {
        Ok(u) => Ok(u.as_u128()),
        Err(e) => Err(e),
    }
}

/// The 128-bit value of a `uuid::Uuid`, by `Uuid::as_u128`.
#[verifier::external_body]
fn uuid_value(u: &uuid::Uuid) -> (r: u128)
    ensures
        r == uuid_u128(*u),
{
    u.as_u128()
}

/// The `uuid::Uuid` with a given 128-bit value, by `Uuid::from_u128`. The crate builds it from
/// the value's big-endian bytes, and `as_u128` reads them back big-endian, so the UUID's value
/// is the one given.
#[verifier::external_body]
fn uuid_of_value(bits: u128) -> (r: uuid::Uuid)
    ensures
        uuid_u128(r) == bits,
{
    uuid::Uuid::from_u128(bits)
}

/// A type-safe identifier based on a UUID.
#[derive(Debug, PartialEq, Eq, Structural, Hash, PartialOrd, Ord)]
pub struct Id<T> {
    bits: u128,
    marker: PhantomData<T>,
}

impl<T> Clone for Id<T> {
    fn clone(&self) -> (r: Self)
        ensures
            r == *self,
    {
        Self { bits: self.bits, marker: PhantomData }
    }
}

impl<T> Copy for Id<T> {

}

impl<T> View for Id<T> {
    type V = u128;

    closed spec fn view(&self) -> u128 {
        self.bits
    }
}

impl<T> Id<T> {
    /// A new random identifier (a random version-4 UUID).
    pub fn new() -> (r: Self)
        ensures
            is_random_v4(r@),
    {
        Self { bits: random_uuid_bits(), marker: PhantomData }
    }

    /// The 128-bit value of this identifier's UUID.
    pub(crate) fn bits(&self) -> (r: u128)
        ensures
            r == self@,
    {
        self.bits
    }

    /// The identifier for a given UUID.
    pub fn from_uuid(uuid: uuid::Uuid) -> (r: Self)
        ensures
            r@ == uuid_u128(uuid),
    {
        Self { bits: uuid_value(&uuid), marker: PhantomData }
    }

    /// The underlying UUID.
    pub fn uuid(&self) -> (r: uuid::Uuid)
        ensures
            uuid_u128(r) == self@,
    {
        uuid_of_value(self.bits)
    }

    /// The nil (all zeros) identifier.
    pub fn nil() -> (r: Self)
        ensures
            r@ == 0,
    {
        Self { bits: 0, marker: PhantomData }
    }

    /// Whether this is the nil identifier.
    pub fn is_nil(&self) -> (r: bool)
        ensures
            r == (self@ == 0),
    {
        self.bits == 0
    }

    /// The 16 bytes of the UUID, most significant first.
    pub fn to_bytes(&self) -> (r: Vec<u8>)
        ensures
            r@.len() == 16,
            forall|k: int| 0 <= k < 16 ==> r@[k] == be_byte(self@, k),
    {
        uuid_bits_bytes(self.bits)
    }

    /// The hyphenated lowercase text of the UUID.
    pub fn to_string(&self) -> (r: String)
        ensures
            r@ == uuid_text(self@),
    {
        uuid_bits_text(self.bits)
    }

    /// Parse an identifier from the text of a UUID.
    pub fn from_str(s: &str) -> (r: Result<Self, uuid::Error>)
        ensures
            match r {
                Ok(id) => uuid_parsed(s@) == Some(id@),
                Err(_) => uuid_parsed(s@) is None,
            },
    {
        match parse_uuid_bits(s) {
            Ok(bits) => Ok(Self { bits, marker: PhantomData }),
            Err(e) => Err(e),
        }
    }
}

impl<T> Default for Id<T> {
    fn default() -> (r: Self) {
        Self::new()
    }
}

impl<T> core::str::FromStr for Id<T> {
    type Err = uuid::Error;

    fn from_str(s: &str) -> (r: Result<Self, Self::Err>)
        ensures
            match r {
                Ok(id) => uuid_parsed(s@) == Some(id@),
                Err(_) => uuid_parsed(s@) is None,
            },
    {
        Id::from_str(s)
    }
}

/// Marker type for plugins.
#[derive(Debug, Clone, Copy, PartialEq, Eq, Hash)]
pub struct PluginMarker;

/// Identifier for a plugin.
pub type PluginId = Id<PluginMarker>;

/// Marker type for capabilities.
#[derive(Debug, Clone, Copy, PartialEq, Eq, Hash)]
pub struct CapabilityMarker;

/// Identifier for a capability.
pub type CapabilityId = Id<CapabilityMarker>;

/// Marker type for workflows.
#[derive(Debug, Clone, Copy, PartialEq, Eq, Hash)]
pub struct WorkflowMarker;

/// Identifier for a workflow.
pub type WorkflowId = Id<WorkflowMarker>;

/// Marker type for workflow nodes.
#[derive(Debug, Clone, Copy, PartialEq, Eq, Hash)]
pub struct NodeMarker;

/// Identifier for a workflow node.
pub type NodeId = Id<NodeMarker>;

/// Marker type for workflow executions.
#[derive(Debug, Clone, Copy, PartialEq, Eq, Hash)]
pub struct ExecutionMarker;

/// Identifier for a workflow execution.
pub type ExecutionId = Id<ExecutionMarker>;

/// Marker type for memory regions.
#[derive(Debug, Clone, Copy, PartialEq, Eq, Hash)]
pub struct RegionMarker;

/// Identifier for a memory region.
pub type RegionId = Id<RegionMarker>;

/// Marker type for messages.
#[derive(Debug, Clone, Copy, PartialEq, Eq, Hash)]
pub struct MessageMarker;

/// Identifier for a message.
pub type MessageId = Id<MessageMarker>;

} // verus!
