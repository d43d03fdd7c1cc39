//! Semantic newtypes for the FIUDP wire-format fields.
//!
//! Each newtype wraps the primitive integer carried on the wire so that a
//! session identifier cannot be passed where a shard index is expected.
//! The view of each newtype is the wrapped integer, and `to_be_bytes`
//! yields the big-endian wire encoding described by `be_u16` / `be_u32`.

use vstd::prelude::*;
use vstd::string::StringExecFns;

verus! {

/// Big-endian encoding of a 16-bit value: high byte first.
pub open spec fn be_u16(v: u16) -> Seq<u8> {
    seq![(v / 256) as u8, (v % 256) as u8]
}

/// Big-endian encoding of a 32-bit value: most significant byte first.
pub open spec fn be_u32(v: u32) -> Seq<u8> {
    seq![
        (v / 0x100_0000) as u8,
        ((v / 0x1_0000) % 256) as u8,
        ((v / 256) % 256) as u8,
        (v % 256) as u8,
    ]
}

fn u16_be_bytes(v: u16) -> (r: [u8; 2])
    ensures
        r@ == be_u16(v),
{
    let r = [(v / 256) as u8, (v % 256) as u8];
    assert(r@ =~= be_u16(v));
    r
}

fn u32_be_bytes(v: u32) -> (r: [u8; 4])
    ensures
        r@ == be_u32(v),
{
    let r = [
        (v / 0x100_0000) as u8,
        ((v / 0x1_0000) % 256) as u8,
        ((v / 256) % 256) as u8,
        (v % 256) as u8,
    ];
    assert(r@ =~= be_u32(v));
    r
}

/// The decimal digit `d` (below 10) as a character.
pub open spec fn digit_char(d: nat) -> char {
    (48 + d) as char
}

/// The decimal notation of `n`, most significant digit first, without
/// leading zeros.
pub open spec fn decimal(n: nat) -> Seq<char>
    decreases n,
{
    if n < 10 {
        seq![digit_char(n)]
    } else {
        decimal(n / 10).push(digit_char(n % 10))
    }
}

fn digit_str(d: u32) -> (r: &'static str)
    requires
        d < 10,
    ensures
        r@ == seq![digit_char(d as nat)],
{
    proof {
        reveal_strlit("0");
        reveal_strlit("1");
        reveal_strlit("2");
        reveal_strlit("3");
        reveal_strlit("4");
        reveal_strlit("5");
        reveal_strlit("6");
        reveal_strlit("7");
        reveal_strlit("8");
        reveal_strlit("9");
    }
    let r = match d {
        0 => "0",
        1 => "1",
        2 => "2",
        3 => "3",
        4 => "4",
        5 => "5",
        6 => "6",
        7 => "7",
        8 => "8",
        _ => "9",
    };
    assert(r@ =~= seq![digit_char(d as nat)]);
    r
}

/// The decimal notation of `n`.
fn decimal_string(n: u32) -> (r: String)
    ensures
        r@ == decimal(n as nat),
    decreases n,
{
    if n < 10 {
        String::from_str(digit_str(n))
    } else {
        let mut s = decimal_string(n / 10);
        s.append(digit_str(n % 10));
        assert(s@ =~= decimal(n as nat));
        s
    }
}

/// A monotonically increasing session identifier (`u16`, big-endian on wire).
///
/// Each transmission burst carries its own session identifier; together with
/// the shard index it forms the AEAD nonce.
#[derive(Debug, Clone, Copy, PartialEq, Eq, Structural, PartialOrd, Ord, Hash)]
pub struct SessionId(u16);

impl View for SessionId {
    type V = u16;

    closed spec fn view(&self) -> u16 {
        self.0
    }
}

impl SessionId {
    /// Wrap a raw `u16` value.
    pub fn new(value: u16) -> (r: Self)
        ensures
            r@ == value,
    {
        SessionId(value)
    }

    /// Return the underlying `u16`.
    pub fn as_u16(self) -> (r: u16)
        ensures
            r == self@,
    {
        self.0
    }

    /// Serialise to 2 bytes, big-endian (wire order).
    pub fn to_be_bytes(self) -> (r: [u8; 2])
        ensures
            r@ == be_u16(self@),
    {
        u16_be_bytes(self.0)
    }

    /// The value in decimal, as the wire field is displayed.
    pub fn to_string(&self) -> (r: String)
        ensures
            r@ == decimal(self@ as nat),
    {
        decimal_string(self.0 as u32)
    }
}

impl From<u16> for SessionId {
    fn from(value: u16) -> (r: Self)
        ensures
            r@ == value,
    {
        SessionId(value)
    }
}

impl vstd::std_specs::convert::FromSpecImpl<u16> for SessionId {
    open spec fn obeys_from_spec() -> bool {
        true
    }

    closed spec fn from_spec(v: u16) -> Self {
        SessionId(v)
    }
}

impl From<SessionId> for u16 {
    fn from(value: SessionId) -> (r: Self)
        ensures
            r == value@,
    {
        value.0
    }
}

impl vstd::std_specs::convert::FromSpecImpl<SessionId> for u16 {
    open spec fn obeys_from_spec() -> bool {
        true
    }

    closed spec fn from_spec(v: SessionId) -> Self {
        v.0
    }
}

/// Zero-based index of a shard within a session (`u16`, big-endian on wire).
///
/// Indices run over the data shards first, then the parity shards.
#[derive(Debug, Clone, Copy, PartialEq, Eq, Structural, PartialOrd, Ord, Hash)]
pub struct ShardIndex(u16);

impl View for ShardIndex {
    type V = u16;

    closed spec fn view(&self) -> u16 {
        self.0
    }
}

impl ShardIndex {
    /// Wrap a raw `u16` value.
    pub fn new(value: u16) -> (r: Self)
        ensures
            r@ == value,
    {
        ShardIndex(value)
    }

    /// Return the underlying `u16`.
    pub fn as_u16(self) -> (r: u16)
        ensures
            r == self@,
    {
        self.0
    }

    /// Serialise to 2 bytes, big-endian (wire order).
    pub fn to_be_bytes(self) -> (r: [u8; 2])
        ensures
            r@ == be_u16(self@),
    {
        u16_be_bytes(self.0)
    }

    /// The value in decimal, as the wire field is displayed.
    pub fn to_string(&self) -> (r: String)
        ensures
            r@ == decimal(self@ as nat),
    {
        decimal_string(self.0 as u32)
    }
}

impl From<u16> for ShardIndex {
    fn from(value: u16) -> (r: Self)
        ensures
            r@ == value,
    {
        ShardIndex(value)
    }
}

impl vstd::std_specs::convert::FromSpecImpl<u16> for ShardIndex {
    open spec fn obeys_from_spec() -> bool {
        true
    }

    closed spec fn from_spec(v: u16) -> Self {
        ShardIndex(v)
    }
}

impl From<ShardIndex> for u16 {
    fn from(value: ShardIndex) -> (r: Self)
        ensures
            r == value@,
    {
        value.0
    }
}

impl vstd::std_specs::convert::FromSpecImpl<ShardIndex> for u16 {
    open spec fn obeys_from_spec() -> bool {
        true
    }

    closed spec fn from_spec(v: ShardIndex) -> Self {
        v.0
    }
}

/// Number of data shards in a session (`u16`, big-endian on wire).
#[derive(Debug, Clone, Copy, PartialEq, Eq, Structural, PartialOrd, Ord, Hash)]
pub struct DataShardCount(u16);

impl View for DataShardCount {
    type V = u16;

    closed spec fn view(&self) -> u16 {
        self.0
    }
}

impl DataShardCount {
    /// Wrap a raw `u16` value.
    pub fn new(value: u16) -> (r: Self)
        ensures
            r@ == value,
    {
        DataShardCount(value)
    }

    /// Return the underlying `u16`.
    pub fn as_u16(self) -> (r: u16)
        ensures
            r == self@,
    {
        self.0
    }

    /// Serialise to 2 bytes, big-endian (wire order).
    pub fn to_be_bytes(self) -> (r: [u8; 2])
        ensures
            r@ == be_u16(self@),
    {
        u16_be_bytes(self.0)
    }

    /// The value in decimal, as the wire field is displayed.
    pub fn to_string(&self) -> (r: String)
        ensures
            r@ == decimal(self@ as nat),
    {
        decimal_string(self.0 as u32)
    }
}

impl From<u16> for DataShardCount {
    fn from(value: u16) -> (r: Self)
        ensures
            r@ == value,
    {
        DataShardCount(value)
    }
}

impl vstd::std_specs::convert::FromSpecImpl<u16> for DataShardCount {
    open spec fn obeys_from_spec() -> bool {
        true
    }

    closed spec fn from_spec(v: u16) -> Self {
        DataShardCount(v)
    }
}

impl From<DataShardCount> for u16 {
    fn from(value: DataShardCount) -> (r: Self)
        ensures
            r == value@,
    {
        value.0
    }
}

impl vstd::std_specs::convert::FromSpecImpl<DataShardCount> for u16 {
    open spec fn obeys_from_spec() -> bool {
        true
    }

    closed spec fn from_spec(v: DataShardCount) -> Self {
        v.0
    }
}

/// Number of parity (redundancy) shards in a session (`u16`, big-endian on wire).
#[derive(Debug, Clone, Copy, PartialEq, Eq, Structural, PartialOrd, Ord, Hash)]
pub struct ParityShardCount(u16);

impl View for ParityShardCount {
    type V = u16;

    closed spec fn view(&self) -> u16 {
        self.0
    }
}

impl ParityShardCount {
    /// Wrap a raw `u16` value.
    pub fn new(value: u16) -> (r: Self)
        ensures
            r@ == value,
    {
        ParityShardCount(value)
    }

    /// Return the underlying `u16`.
    pub fn as_u16(self) -> (r: u16)
        ensures
            r == self@,
    {
        self.0
    }

    /// Serialise to 2 bytes, big-endian (wire order).
    pub fn to_be_bytes(self) -> (r: [u8; 2])
        ensures
            r@ == be_u16(self@),
    {
        u16_be_bytes(self.0)
    }

    /// The value in decimal, as the wire field is displayed.
    pub fn to_string(&self) -> (r: String)
        ensures
            r@ == decimal(self@ as nat),
    {
        decimal_string(self.0 as u32)
    }
}

impl From<u16> for ParityShardCount {
    fn from(value: u16) -> (r: Self)
        ensures
            r@ == value,
    {
        ParityShardCount(value)
    }
}

impl vstd::std_specs::convert::FromSpecImpl<u16> for ParityShardCount {
    open spec fn obeys_from_spec() -> bool {
        true
    }

    closed spec fn from_spec(v: u16) -> Self {
        ParityShardCount(v)
    }
}

impl From<ParityShardCount> for u16 {
    fn from(value: ParityShardCount) -> (r: Self)
        ensures
            r == value@,
    {
        value.0
    }
}

impl vstd::std_specs::convert::FromSpecImpl<ParityShardCount> for u16 {
    open spec fn obeys_from_spec() -> bool {
        true
    }

    closed spec fn from_spec(v: ParityShardCount) -> Self {
        v.0
    }
}

/// Seconds until the terminal's next wake window (`u32`, big-endian on wire).
///
/// Advisory: `0` means that the wake schedule stays as it is.
#[derive(Debug, Clone, Copy, PartialEq, Eq, Structural, PartialOrd, Ord, Hash)]
pub struct RendezvousSecs(u32);

impl View for RendezvousSecs {
    type V = u32;

    closed spec fn view(&self) -> u32 {
        self.0
    }
}

impl RendezvousSecs {
    /// Wrap a raw `u32` value.
    pub fn new(value: u32) -> (r: Self)
        ensures
            r@ == value,
    {
        RendezvousSecs(value)
    }

    /// Return the underlying `u32`.
    pub fn as_u32(self) -> (r: u32)
        ensures
            r == self@,
    {
        self.0
    }

    /// Serialise to 4 bytes, big-endian (wire order).
    pub fn to_be_bytes(self) -> (r: [u8; 4])
        ensures
            r@ == be_u32(self@),
    {
        u32_be_bytes(self.0)
    }

    /// The value in decimal followed by `s`, as the timer is displayed.
    pub fn to_string(&self) -> (r: String)
        ensures
            r@ == decimal(self@ as nat).push('s'),
    {
        let mut s = decimal_string(self.0);
        proof {
            reveal_strlit("s");
        }
        s.append("s");
        assert(s@ =~= decimal(self@ as nat).push('s'));
        s
    }
}

impl From<u32> for RendezvousSecs {
    fn from(value: u32) -> (r: Self)
        ensures
            r@ == value,
    {
        RendezvousSecs(value)
    }
}

impl vstd::std_specs::convert::FromSpecImpl<u32> for RendezvousSecs {
    open spec fn obeys_from_spec() -> bool {
        true
    }

    closed spec fn from_spec(v: u32) -> Self {
        RendezvousSecs(v)
    }
}

impl From<RendezvousSecs> for u32 {
    fn from(value: RendezvousSecs) -> (r: Self)
        ensures
            r == value@,
    {
        value.0
    }
}

impl vstd::std_specs::convert::FromSpecImpl<RendezvousSecs> for u32 {
    open spec fn obeys_from_spec() -> bool {
        true
    }

    closed spec fn from_spec(v: RendezvousSecs) -> Self {
        v.0
    }
}

/// Converting a raw value into a newtype and back gives the raw value, and
/// the wire encoding is that of the raw value.
pub proof fn law_newtype_round_trip(v16: u16, v32: u32)
    ensures
        <u16 as vstd::std_specs::convert::FromSpec<SessionId>>::from_spec(
            <SessionId as vstd::std_specs::convert::FromSpec<u16>>::from_spec(v16),
        ) == v16,
        <u16 as vstd::std_specs::convert::FromSpec<ShardIndex>>::from_spec(
            <ShardIndex as vstd::std_specs::convert::FromSpec<u16>>::from_spec(v16),
        ) == v16,
        <u16 as vstd::std_specs::convert::FromSpec<DataShardCount>>::from_spec(
            <DataShardCount as vstd::std_specs::convert::FromSpec<u16>>::from_spec(v16),
        ) == v16,
        <u16 as vstd::std_specs::convert::FromSpec<ParityShardCount>>::from_spec(
            <ParityShardCount as vstd::std_specs::convert::FromSpec<u16>>::from_spec(v16),
        ) == v16,
        <u32 as vstd::std_specs::convert::FromSpec<RendezvousSecs>>::from_spec(
            <RendezvousSecs as vstd::std_specs::convert::FromSpec<u32>>::from_spec(v32),
        ) == v32,
        <SessionId as vstd::std_specs::convert::FromSpec<u16>>::from_spec(v16)@ == v16,
        <ShardIndex as vstd::std_specs::convert::FromSpec<u16>>::from_spec(v16)@ == v16,
        <DataShardCount as vstd::std_specs::convert::FromSpec<u16>>::from_spec(v16)@ == v16,
        <ParityShardCount as vstd::std_specs::convert::FromSpec<u16>>::from_spec(v16)@ == v16,
        <RendezvousSecs as vstd::std_specs::convert::FromSpec<u32>>::from_spec(v32)@ == v32,
{
}

} // verus!
