//! The identifier itself: construction, the 128-bit encoding and its text.
use crate::error::TimeflakeError;
use crate::foreign::{
    format_uuid, millis_of, parse_uuid, random_bytes, since_unix_epoch, uuid_bits,
};
use crate::text::{hyphenated, lemma_hyphenated_round_trip, uuid_text_value};
use std::time::{Duration, SystemTime};
use uuid::Uuid;
use vstd::prelude::*;

verus! {

/// The low 80 bits of a 128-bit value.
pub const RANDOM_MASK: u128 = 0xFFFF_FFFF_FFFF_FFFF_FFFF;

/// The number of distinct random payloads: 2^80.
pub open spec fn random_limit() -> nat {
    0x1_0000_0000_0000_0000_0000
}

/// The number of distinct timestamps that the encoding keeps: 2^48 milliseconds.
pub open spec fn millis_limit() -> nat {
    0x1_0000_0000_0000
}

/// A little-endian number: the byte at `i` weighs 256^i.
pub open spec fn le_value(bytes: Seq<u8>, i: nat) -> nat
    decreases bytes.len() - i,
{
    if i >= bytes.len() {
        0
    } else {
        bytes[i as int] as nat + 256 * le_value(bytes, i + 1)
    }
}

/// The canonical encoding: the low 48 bits of the millisecond count above the
/// low 80 bits of the random payload.
pub open spec fn encode(millis: nat, random: nat) -> nat {
    (millis % millis_limit()) * random_limit() + random % random_limit()
}

/// A time-ordered identifier: a timestamp since the Unix epoch and a random payload.
#[derive(Debug)]
pub struct Timeflake {
    pub timestamp: Duration,
    pub random: u128,
}

impl Timeflake {
    /// Whole milliseconds since the Unix epoch.
    pub open spec fn millis(self) -> nat {
        millis_of(self.timestamp) as nat
    }

    /// The 128-bit value that the identifier encodes to.
    pub open spec fn encoding(self) -> nat {
        encode(self.millis(), self.random as nat)
    }

    /// The random payload fits in its 80 bits.
    pub open spec fn wf(self) -> bool {
        self.random < random_limit()
    }

    /// Builds an identifier from a timestamp, kept to whole milliseconds, and
    /// a random payload, of which only the low 80 bits are kept. Without a
    /// payload, ten bytes are drawn from the random source (see `from_draw`).
    pub fn from_values(timestamp: Duration, random_val: Option<u128>) -> (r: Result<
        Timeflake,
        TimeflakeError,
    >)
        ensures
            match random_val {
                Some(x) => r is Ok && r->Ok_0.millis() == millis_of(timestamp)
                    && r->Ok_0.random == x as nat % random_limit(),
                None => match r {
                    Ok(f) => f.millis() == millis_of(timestamp) && f.wf(),
                    Err(e) => e is RNGError,
                },
            },
    {
        match random_val {
            Some(x) => {
                proof {
                    assert(x & 0xFFFF_FFFF_FFFF_FFFF_FFFF == x % 0x1_0000_0000_0000_0000_0000)
                        by (bit_vector);
                }
                let random = x & RANDOM_MASK;
                Ok(Timeflake { timestamp: whole_millis(timestamp), random })
            },
            None => Self::from_draw(timestamp, random_bytes()),
        }
    }

    /// Builds an identifier from a timestamp, kept to whole milliseconds, and
    /// the outcome of drawing ten bytes from the random source: the bytes,
    /// read little-endian, are the payload; a failed draw is an `RNGError`
    /// carrying the source's message.
    pub fn from_draw(timestamp: Duration, draw: Result<[u8; 10], String>) -> (r: Result<
        Timeflake,
        TimeflakeError,
    >)
        ensures
            match draw {
                Ok(b) => r is Ok && r->Ok_0.millis() == millis_of(timestamp)
                    && r->Ok_0.random == le_value(b@, 0) && r->Ok_0.wf(),
                Err(m) => match r {
                    Err(TimeflakeError::RNGError { msg }) => msg == m,
                    _ => false,
                },
            },
    {
        match draw {
            Ok(bytes) => Ok(
                Timeflake { timestamp: whole_millis(timestamp), random: random_from_bytes(bytes) },
            ),
            Err(msg) => Err(TimeflakeError::RNGError { msg }),
        }
    }

    /// Builds an identifier from a reading of the clock, the time since the
    /// Unix epoch, and a fresh random payload. A failed reading is a
    /// `SystemTimeError` carrying its message, and nothing is drawn; otherwise
    /// the result is that of `from_values` on the reading without a payload.
    pub fn from_clock(reading: Result<Duration, String>) -> (r: Result<Timeflake, TimeflakeError>)
        ensures
            match reading {
                Ok(d) => match r {
                    Ok(f) => f.millis() == millis_of(d) && f.wf(),
                    Err(e) => e is RNGError,
                },
                Err(m) => match r {
                    Err(TimeflakeError::SystemTimeError { msg }) => msg == m,
                    _ => false,
                },
            },
    {
        match reading {
            Ok(time) => Self::from_values(time, None),
            Err(msg) => Err(TimeflakeError::SystemTimeError { msg }),
        }
    }

    /// Builds an identifier from the current time and a fresh random payload
    /// (see `from_clock`).
    pub fn random() -> (r: Result<Timeflake, TimeflakeError>)
        ensures
            match r {
                Ok(f) => f.wf(),
                Err(e) => e is RNGError || e is SystemTimeError,
            },
    {
        Self::from_clock(since_unix_epoch(SystemTime::now()))
    }

    /// Splits a 128-bit value into its timestamp (top 48 bits) and random
    /// payload (low 80 bits).
    pub fn from_u128(v: u128) -> (r: Timeflake)
        ensures
            r.millis() == v as nat / random_limit(),
            r.random == v as nat % random_limit(),
            r.wf(),
    {
        let millis = (v >> 80u32) as u64;
        let random = v & RANDOM_MASK;
        proof {
            assert(v >> 80u32 == v / 0x1_0000_0000_0000_0000_0000 && (v >> 80u32) < 0x1_0000_0000_0000)
                by (bit_vector);
            assert(v & 0xFFFF_FFFF_FFFF_FFFF_FFFF == v % 0x1_0000_0000_0000_0000_0000)
                by (bit_vector);
        }
        Timeflake { timestamp: Duration::from_millis(millis), random }
    }

    /// Reads an identifier from its text. The accepted forms are those of a
    /// UUID: 32 hexadecimal digits, the hyphenated form, that form in braces or
    /// after a `urn:uuid:` prefix; anything else is malformed.
    pub fn parse(data: &str) -> (r: Result<Timeflake, TimeflakeError>)
        ensures
            match uuid_text_value(data@) {
                Some(v) => r is Ok && r->Ok_0.millis() == v as nat / random_limit()
                    && r->Ok_0.random == v as nat % random_limit(),
                None => match r {
                    Err(TimeflakeError::MalformedData { msg }) => msg@.len() > 0,
                    _ => false,
                },
            },
    {
        match parse_uuid(data) {
            Ok(uuid) => Ok(Self::from_u128(uuid.as_u128())),
            Err(msg) => Err(TimeflakeError::MalformedData { msg }),
        }
    }

    /// Packs the low 48 bits of the millisecond count above the low 80 bits of
    /// the random payload. Longer timestamps are truncated, never refused.
    pub fn as_u128(&self) -> (r: u128)
        ensures
            r as nat == self.encoding(),
    {
        let timeflake = self.random & RANDOM_MASK;
        let timestamp_part = self.timestamp.as_millis() as u64;
        let r = timeflake | (timestamp_part as u128) << 80u32;
        proof {
            let random = self.random;
            let millis = millis_of(self.timestamp);
            assert((random & 0xFFFF_FFFF_FFFF_FFFF_FFFF) | (((millis as u64) as u128) << 80u32)
                == (millis % 0x1_0000_0000_0000) * 0x1_0000_0000_0000_0000_0000
                + random % 0x1_0000_0000_0000_0000_0000) by (bit_vector);
        }
        r
    }

    /// The identifier as a UUID holding its 128-bit encoding.
    pub fn get_uuid(&self) -> (r: Uuid)
        ensures
            uuid_bits(r) as nat == self.encoding(),
    {
        Uuid::from_u128(self.as_u128())
    }

    /// The canonical text: the encoding in lowercase hexadecimal, grouped 8-4-4-4-12.
    pub fn to_string(&self) -> (r: String)
        ensures
            r@ == hyphenated(self.encoding()),
    {
        format_uuid(&self.get_uuid())
    }
}

/// A duration cut to whole milliseconds. One whose millisecond count does
/// not fit in 64 bits is kept as it is.
fn whole_millis(d: Duration) -> (r: Duration)
    ensures
        millis_of(r) == millis_of(d),
{
    let millis = d.as_millis();
    if millis <= 0xFFFF_FFFF_FFFF_FFFFu128 {
        Duration::from_millis(millis as u64)
    } else {
        d
    }
}

/// The random payload that ten bytes from the random source give: the bytes
/// read as a little-endian number, below 2^80.
pub fn random_from_bytes(bytes: [u8; 10]) -> (r: u128)
    ensures
        r as nat == le_value(bytes@, 0),
        (r as nat) < random_limit(),
{
    proof {
        reveal_with_fuel(le_value, 11);
    }
    bytes[0] as u128 + (bytes[1] as u128) * 0x100 + (bytes[2] as u128) * 0x1_0000 + (bytes[3] as u128)
        * 0x100_0000 + (bytes[4] as u128) * 0x1_0000_0000 + (bytes[5] as u128) * 0x100_0000_0000
        + (bytes[6] as u128) * 0x1_0000_0000_0000 + (bytes[7] as u128) * 0x100_0000_0000_0000
        + (bytes[8] as u128) * 0x1_0000_0000_0000_0000 + (bytes[9] as u128)
        * 0x100_0000_0000_0000_0000
}

} // verus!

verus! {

/// Decoding the encoding of an identifier whose timestamp fits in 48 bits and
/// whose payload fits in 80 bits gives back both; the encoding fits in 128 bits.
pub proof fn lemma_integer_round_trip(f: Timeflake)
    requires
        f.millis() < millis_limit(),
        f.wf(),
    ensures
        f.encoding() < 0x1_0000_0000_0000_0000_0000_0000_0000_0000,
        f.encoding() / random_limit() == f.millis(),
        f.encoding() % random_limit() == f.random,
{
    let m = f.millis();
    let x = f.random as nat;
    assert(m % millis_limit() == m);
    assert(x % random_limit() == x);
    assert(f.encoding() == m * random_limit() + x);
    assert(m * 0x1_0000_0000_0000_0000_0000 + x < 0x1_0000_0000_0000_0000_0000_0000_0000_0000)
        by (nonlinear_arith)
        requires
            m < 0x1_0000_0000_0000,
            x < 0x1_0000_0000_0000_0000_0000,
    ;
    assert((m * 0x1_0000_0000_0000_0000_0000 + x) / 0x1_0000_0000_0000_0000_0000 == m
        && (m * 0x1_0000_0000_0000_0000_0000 + x) % 0x1_0000_0000_0000_0000_0000 == x)
        by (nonlinear_arith)
        requires
            x < 0x1_0000_0000_0000_0000_0000,
    ;
}

/// Parsing the canonical text of an identifier whose timestamp fits in 48
/// bits and whose payload fits in 80 bits gives back both.
pub proof fn lemma_text_round_trip(f: Timeflake)
    requires
        f.millis() < millis_limit(),
        f.wf(),
    ensures
        match uuid_text_value(hyphenated(f.encoding())) {
            Some(v) => v as nat / random_limit() == f.millis() && v as nat % random_limit()
                == f.random,
            None => false,
        },
{
    lemma_integer_round_trip(f);
    lemma_hyphenated_round_trip(f.encoding() as u128);
}

/// Identifiers built with the same timestamp and the same explicit payload
/// encode to the same value, the encoding of that timestamp and payload.
pub proof fn lemma_explicit_construction_deterministic(
    t: Duration,
    x: u128,
    a: Timeflake,
    b: Timeflake,
)
    requires
        a.timestamp == t && a.random == x as nat % random_limit(),
        b.timestamp == t && b.random == x as nat % random_limit(),
    ensures
        a.encoding() == b.encoding(),
        a.encoding() == encode(millis_of(t) as nat, x as nat),
{
}

/// Two draws of ten bytes give the same payload exactly when they are the
/// same bytes.
pub proof fn lemma_payload_injective(a: Seq<u8>, b: Seq<u8>)
    requires
        a.len() == 10,
        b.len() == 10,
    ensures
        le_value(a, 0) == le_value(b, 0) <==> a == b,
{
    if le_value(a, 0) == le_value(b, 0) {
        lemma_le_value_injective(a, b, 0);
        assert(a =~= b);
    }
}

proof fn lemma_le_value_injective(a: Seq<u8>, b: Seq<u8>, i: nat)
    requires
        a.len() == b.len(),
        i <= a.len(),
        le_value(a, i) == le_value(b, i),
    ensures
        forall|j: int| i <= j < a.len() ==> a[j] == b[j],
    decreases a.len() - i,
{
    if i < a.len() {
        let (x, y) = (a[i as int] as int, b[i as int] as int);
        let (p, q) = (le_value(a, i + 1) as int, le_value(b, i + 1) as int);
        assert(x == y && p == q) by (nonlinear_arith)
            requires
                0 <= x < 256,
                0 <= y < 256,
                p >= 0,
                q >= 0,
                x + 256 * p == y + 256 * q,
        ;
        lemma_le_value_injective(a, b, i + 1);
    }
}

/// Of two timestamps that fit in 48 bits, the earlier one encodes below the
/// later one, whatever the payloads.
pub proof fn lemma_chronological(a: Timeflake, b: Timeflake)
    requires
        a.millis() < b.millis(),
        b.millis() < millis_limit(),
    ensures
        a.encoding() < b.encoding(),
{
    let (ma, mb) = (a.millis(), b.millis());
    let (xa, xb) = (a.random as nat % random_limit(), b.random as nat % random_limit());
    assert(ma % millis_limit() == ma && mb % millis_limit() == mb);
    assert(ma * 0x1_0000_0000_0000_0000_0000 + xa < mb * 0x1_0000_0000_0000_0000_0000 + xb)
        by (nonlinear_arith)
        requires
            ma < mb,
            xa < 0x1_0000_0000_0000_0000_0000,
    ;
}

} // verus!
