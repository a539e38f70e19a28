//! Identifiers of graph entities and points in time.

use vstd::prelude::*;

verus! {

/// A lowercase hexadecimal digit.
pub open spec fn hex_digit(d: int) -> char {
    if d < 10 { (48 + d) as char } else { (87 + d) as char }
}

/// The text of a UUID, as `uuid::Uuid`'s `Display` writes it: the 32
/// hexadecimal digits of the value, most significant first, in lowercase,
/// in groups of 8, 4, 4, 4 and 12 joined by hyphens.
pub open spec fn uuid_text(value: u128) -> Seq<char> {
    Seq::new(36, |i: int|
        if i == 8 || i == 13 || i == 18 || i == 23 {
            '-'
        } else {
            let j = i - (if i < 8 { 0int } else if i < 13 { 1 } else if i < 18 { 2 } else if i < 23 { 3 } else { 4 });
            hex_digit((value as int / vstd::arithmetic::power2::pow2((124 - 4 * j) as nat) as int) % 16)
        })
}

/// What `uuid::Uuid::parse_str` gives for a string: the UUID's value, or,
/// when the text is not a UUID in any format the parser accepts, the text
/// of uuid's error (it names what was wrong and where).
pub uninterp spec fn uuid_parse_outcome(text: Seq<char>) -> Result<u128, Seq<char>>;

/// The UUID that a string denotes, or `None` when uuid's parser refuses it.
pub open spec fn uuid_parsed(text: Seq<char>) -> Option<u128> {
    match uuid_parse_outcome(text) {
        Ok(v) => Some(v),
        Err(_) => None,
    }
}

/// Whether a UUID value is a random (version 4) UUID of the RFC 4122
/// variant: its version nibble is 4 and the top two bits of its variant
/// byte are `10`; the other 122 bits are free.
pub open spec fn is_random_uuid(value: u128) -> bool {
    value & 0xF000_C000_0000_0000_0000u128 == 0x4000_8000_0000_0000_0000u128
}

/// A fresh random (version 4) UUID from `uuid::Uuid::new_v4`.
///
/// Trusted: the value carries the version and variant bits that `new_v4`
/// sets (it masks random bits and sets `0x4000_8000_0000_0000_0000`);
/// nothing else is claimed of the value, which comes from the random
/// number source.
#[verifier::external_body]
fn fresh_uuid() -> (r: u128)
    ensures
        is_random_uuid(r),
{
    uuid::Uuid::new_v4().as_u128()
}

/// Format a UUID value with `uuid::Uuid`'s `Display`.
///
/// Trusted: the text is `uuid_text` of the value (uuid's `Display` writes
/// the hyphenated lowercase form), and `uuid::Uuid::parse_str` reads it
/// back as the same value (the hyphenated form is one that the parser
/// accepts, as uuid documents).
#[verifier::external_body]
fn uuid_to_string(value: u128) -> (r: String)
    ensures
        r@ == uuid_text(value),
        uuid_parsed(r@) == Some(value),
{
    uuid::Uuid::from_u128(value).to_string()
}

/// Parse a UUID with `uuid::Uuid::parse_str`.
///
/// Trusted: the outcome is `uuid_parse_outcome` of the text, a function of
/// the text alone: the UUID's value, or the `Display` text of uuid's error.
#[verifier::external_body]
pub(crate) fn uuid_parse(text: &str) -> (r: Result<u128, String>)
    ensures
        (match r {
            Ok(v) => Ok::<u128, Seq<char>>(v),
            Err(m) => Err::<u128, Seq<char>>(m@),
        }) == uuid_parse_outcome(text@),
{
    match uuid::Uuid::parse_str(text) {
        Ok(u) => Ok(u.as_u128()),
        Err(e) => Err(e.to_string()),
    }
}

/// Unique identifier of a node.
#[derive(Debug, Clone, Copy, PartialEq, Eq, Structural, Hash)]
pub struct NodeId {
    /// The UUID's 128-bit value
    pub value: u128,
}

/// Unique identifier of an edge.
#[derive(Debug, Clone, Copy, PartialEq, Eq, Structural, Hash)]
pub struct EdgeId {
    /// The UUID's 128-bit value
    pub value: u128,
}

/// Unique identifier of a conversation session.
#[derive(Debug, Clone, Copy, PartialEq, Eq, Structural, Hash)]
pub struct SessionId {
    /// The UUID's 128-bit value
    pub value: u128,
}

/// Unique identifier of an agent.
#[derive(Debug, Clone, Copy, PartialEq, Eq, Structural, Hash)]
pub struct AgentId {
    /// The UUID's 128-bit value
    pub value: u128,
}

/// Unique identifier of a prompt template.
#[derive(Debug, Clone, Copy, PartialEq, Eq, Structural, Hash)]
pub struct TemplateId {
    /// The UUID's 128-bit value
    pub value: u128,
}

impl NodeId {
    /// A fresh random identifier: a random (version 4) UUID.
    pub fn new() -> (id: Self)
        ensures
            is_random_uuid(id.value),
    {
        NodeId { value: fresh_uuid() }
    }

    /// The identifier with the given UUID value.
    pub fn from_u128(value: u128) -> (id: Self)
        ensures
            id.value == value,
    {
        NodeId { value }
    }

    /// The identifier's text in hyphenated UUID form, which parses back
    /// to the identifier.
    pub fn to_string(&self) -> (s: String)
        ensures
            s@ == uuid_text(self.value),
            uuid_parsed(s@) == Some(self.value),
    {
        uuid_to_string(self.value)
    }

    /// Parse an identifier from UUID text; `None` when the text is no UUID.
    pub fn parse_str(text: &str) -> (r: Option<Self>)
        ensures
            r == (match uuid_parsed(text@) {
                Some(v) => Some(NodeId { value: v }),
                None => None,
            }),
    {
        match uuid_parse(text) {
            Ok(v) => Some(NodeId { value: v }),
            Err(_) => None,
        }
    }

    /// Parse an identifier from UUID text; when the text is no UUID, the
    /// error is uuid's own message.
    pub fn parse(text: &str) -> (r: Result<Self, String>)
        ensures
            (match r {
                Ok(id) => Ok::<u128, Seq<char>>(id.value),
                Err(m) => Err::<u128, Seq<char>>(m@),
            }) == uuid_parse_outcome(text@),
    {
        match uuid_parse(text) {
            Ok(v) => Ok(NodeId { value: v }),
            Err(m) => Err(m),
        }
    }
}

impl EdgeId {
    /// A fresh random identifier: a random (version 4) UUID.
    pub fn new() -> (id: Self)
        ensures
            is_random_uuid(id.value),
    {
        EdgeId { value: fresh_uuid() }
    }

    /// The identifier's text in hyphenated UUID form, which parses back
    /// to the identifier.
    pub fn to_string(&self) -> (s: String)
        ensures
            s@ == uuid_text(self.value),
            uuid_parsed(s@) == Some(self.value),
    {
        uuid_to_string(self.value)
    }
}

impl SessionId {
    /// A fresh random identifier: a random (version 4) UUID.
    pub fn new() -> (id: Self)
        ensures
            is_random_uuid(id.value),
    {
        SessionId { value: fresh_uuid() }
    }

    /// The identifier with the given UUID value.
    pub fn from_u128(value: u128) -> (id: Self)
        ensures
            id.value == value,
    {
        SessionId { value }
    }

    /// The identifier's text in hyphenated UUID form, which parses back
    /// to the identifier.
    pub fn to_string(&self) -> (s: String)
        ensures
            s@ == uuid_text(self.value),
            uuid_parsed(s@) == Some(self.value),
    {
        uuid_to_string(self.value)
    }

    /// Parse an identifier from UUID text; `None` when the text is no UUID.
    pub fn parse_str(text: &str) -> (r: Option<Self>)
        ensures
            r == (match uuid_parsed(text@) {
                Some(v) => Some(SessionId { value: v }),
                None => None,
            }),
    {
        match uuid_parse(text) {
            Ok(v) => Some(SessionId { value: v }),
            Err(_) => None,
        }
    }

    /// Parse an identifier from UUID text; when the text is no UUID, the
    /// error is uuid's own message.
    pub fn parse(text: &str) -> (r: Result<Self, String>)
        ensures
            (match r {
                Ok(id) => Ok::<u128, Seq<char>>(id.value),
                Err(m) => Err::<u128, Seq<char>>(m@),
            }) == uuid_parse_outcome(text@),
    {
        match uuid_parse(text) {
            Ok(v) => Ok(SessionId { value: v }),
            Err(m) => Err(m),
        }
    }
}

impl AgentId {
    /// A fresh random identifier: a random (version 4) UUID.
    pub fn new() -> (id: Self)
        ensures
            is_random_uuid(id.value),
    {
        AgentId { value: fresh_uuid() }
    }

    /// The identifier's text in hyphenated UUID form, which parses back
    /// to the identifier.
    pub fn to_string(&self) -> (s: String)
        ensures
            s@ == uuid_text(self.value),
            uuid_parsed(s@) == Some(self.value),
    {
        uuid_to_string(self.value)
    }
}

impl TemplateId {
    /// A fresh random identifier: a random (version 4) UUID.
    pub fn new() -> (id: Self)
        ensures
            is_random_uuid(id.value),
    {
        TemplateId { value: fresh_uuid() }
    }

    /// The identifier's text in hyphenated UUID form, which parses back
    /// to the identifier.
    pub fn to_string(&self) -> (s: String)
        ensures
            s@ == uuid_text(self.value),
            uuid_parsed(s@) == Some(self.value),
    {
        uuid_to_string(self.value)
    }
}

/// A point in time: whole seconds since the Unix epoch and the nanoseconds
/// within that second.
#[derive(Debug, Clone, Copy, PartialEq, Eq, Structural, Hash)]
pub struct Timestamp {
    /// Seconds since 1970-01-01T00:00:00Z
    pub seconds: i64,
    /// Nanoseconds past the second (above 999,999,999 only within a leap second)
    pub nanos: u32,
}

/// Whether `a` is no later than `b`: times compare by seconds, then by
/// nanoseconds.
pub open spec fn ts_le(a: Timestamp, b: Timestamp) -> bool {
    a.seconds < b.seconds || (a.seconds == b.seconds && a.nanos <= b.nanos)
}

/// The current time from `chrono::Utc::now`.
///
/// Trusted: the nanoseconds are below two seconds' worth (chrono's
/// `timestamp_subsec_nanos` exceeds 999,999,999 only within a leap second,
/// and a `NaiveTime` holds less than 2,000,000,000); nothing else is
/// claimed of the value, which comes from the clock.
#[verifier::external_body]
fn clock_now() -> (t: Timestamp)
    ensures
        t.nanos < 2_000_000_000,
{
    let now = chrono::Utc::now();
    Timestamp { seconds: now.timestamp(), nanos: now.timestamp_subsec_nanos() }
}

impl Timestamp {
    /// The current time.
    pub fn now() -> (t: Self)
        ensures
            t.nanos < 2_000_000_000,
    {
        clock_now()
    }

    /// Whether `self` is no later than `other`.
    pub fn le(&self, other: &Timestamp) -> (r: bool)
        ensures
            r == ts_le(*self, *other),
    {
        self.seconds < other.seconds || (self.seconds == other.seconds && self.nanos <= other.nanos)
    }
}

/// `ts_le` is a total order.
pub proof fn lemma_ts_le_total_order(a: Timestamp, b: Timestamp, c: Timestamp)
    ensures
        ts_le(a, a),
        ts_le(a, b) || ts_le(b, a),
        ts_le(a, b) && ts_le(b, a) ==> a == b,
        ts_le(a, b) && ts_le(b, c) ==> ts_le(a, c),
{
}

} // verus!

verus! {

/// The RFC 3339 text that `chrono::DateTime::<Utc>::to_rfc3339` writes for a
/// point in time.
pub uninterp spec fn rfc3339_text(t: Timestamp) -> Seq<char>;

/// What `chrono::DateTime::parse_from_rfc3339` reads from a text, taken to
/// UTC: the point in time, or `None` when the text is not RFC 3339.
pub uninterp spec fn rfc3339_parsed(text: Seq<char>) -> Option<Timestamp>;

/// Whether a point in time lies in the years 0000 to 9999 and is no leap
/// second: chrono then writes its RFC 3339 text with a four-digit year and
/// every nonzero fractional digit, and reads that text back as the same
/// point in time.
pub open spec fn rfc3339_round_trips(t: Timestamp) -> bool {
    &&& -62_167_219_200 <= t.seconds <= 253_402_300_799
    &&& t.nanos < 1_000_000_000
}

/// Format a point in time as RFC 3339 with chrono.
///
/// Trusted: the text is `rfc3339_text` of the time; `None` is impossible
/// for the times chrono can represent, and the empty string stands for a
/// time it cannot. For a time in the years 0000 to 9999 that is no leap
/// second, `parse_from_rfc3339` reads the text back as the same time
/// (`to_rfc3339` writes the year in four digits, the UTC offset `+00:00`,
/// and the nanoseconds exactly).
#[verifier::external_body]
pub(crate) fn timestamp_to_rfc3339(t: Timestamp) -> (r: String)
    ensures
        r@ == rfc3339_text(t),
        rfc3339_round_trips(t) ==> rfc3339_parsed(r@) == Some(t),
{
    match chrono::DateTime::from_timestamp(t.seconds, t.nanos) {
        Some(dt) => dt.to_rfc3339(),
        None => String::new(),
    }
}

/// Parse an RFC 3339 time with chrono.
///
/// Trusted: the result is `rfc3339_parsed` of the text.
#[verifier::external_body]
pub(crate) fn timestamp_from_rfc3339(text: &str) -> (r: Option<Timestamp>)
    ensures
        r == rfc3339_parsed(text@),
{
    match chrono::DateTime::parse_from_rfc3339(text) {
        Ok(dt) => {
            let utc = dt.with_timezone(&chrono::Utc);
            Some(Timestamp { seconds: utc.timestamp(), nanos: utc.timestamp_subsec_nanos() })
        }
        Err(_) => None,
    }
}

/// A length of time: whole seconds and the nanoseconds within the second.
#[derive(Debug, Clone, Copy, PartialEq, Eq, Structural)]
pub struct Span {
    /// Whole seconds
    pub secs: u64,
    /// Nanoseconds, below one second
    pub nanos: u32,
}

/// Nanoseconds per second.
pub const NANOS_PER_SEC: u32 = 1_000_000_000;

/// The whole length of a span in nanoseconds.
pub open spec fn span_nanos(s: Span) -> int {
    s.secs * 1_000_000_000 + s.nanos
}

impl Span {
    /// A span of whole seconds.
    pub fn from_secs(secs: u64) -> (s: Self)
        ensures
            s == (Span { secs, nanos: 0 }),
    {
        Span { secs, nanos: 0 }
    }

    /// A span of milliseconds.
    pub fn from_millis(ms: u64) -> (s: Self)
        ensures
            s.secs == ms / 1000,
            s.nanos == (ms % 1000) * 1_000_000,
            span_nanos(s) == ms * 1_000_000,
    {
        Span { secs: ms / 1000, nanos: ((ms % 1000) as u32) * 1_000_000 }
    }
}

} // verus!
