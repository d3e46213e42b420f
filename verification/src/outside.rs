//! Instants and digests, computed by outside crates.
use vstd::prelude::*;

use sha2::Digest;

use crate::text::{all_lower_hex, number_of, opt_view, views};

verus! {

/// A moment: whole seconds since the Unix epoch and nanoseconds on top of them.
///
/// During a leap second the nanoseconds reach beyond one second.
#[derive(Clone, Copy, Debug, PartialEq, Eq, Structural)]
pub struct Instant {
    pub seconds: i64,
    pub nanos: u32,
}

/// What `chrono::DateTime::parse_from_rfc3339` makes of a text: the seconds and
/// nanoseconds of the moment, or the message of the error.
pub uninterp spec fn rfc3339(text: Seq<char>) -> Result<(i64, u32), Seq<char>>;

/// `chrono::DateTime::parse_from_rfc3339`: the result is a function of the text
/// alone. The moment is taken apart by `timestamp` and `timestamp_subsec_nanos`;
/// an error is kept as its message.
#[verifier::external_body]
pub(crate) fn parse_rfc3339(text: &str) -> (r: Result<Instant, String>)
    ensures
        match r {
            Ok(at) => rfc3339(text@) == Ok::<(i64, u32), Seq<char>>((at.seconds, at.nanos)),
            Err(message) => rfc3339(text@) == Err::<(i64, u32), Seq<char>>(message@),
        },
{
    match chrono::DateTime::parse_from_rfc3339(text) {
        Ok(at) => Ok(Instant { seconds: at.timestamp(), nanos: at.timestamp_subsec_nanos() }),
        Err(error) => Err(error.to_string()),
    }
}

/// The moment that a text names, if it names one.
pub open spec fn instant_of(text: Seq<char>) -> Option<Instant> {
    match rfc3339(text) {
        Ok((seconds, nanos)) => Some(Instant { seconds, nanos }),
        Err(_) => None,
    }
}

/// The moment that a text names, if it names one.
pub fn parse_time(text: &str) -> (r: Option<Instant>)
    ensures
        r == instant_of(text@),
{
    match parse_rfc3339(text) {
        Ok(at) => Some(at),
        Err(_) => None,
    }
}

/// Nanoseconds in a second.
pub const NANOS: i128 = 1_000_000_000;

/// Seconds in a day.
pub const DAY: i64 = 86_400;

impl Instant {
    /// Whether this moment comes before another.
    pub open spec fn precedes(self, other: Instant) -> bool {
        self.seconds < other.seconds || (self.seconds == other.seconds && self.nanos < other.nanos)
    }

    /// Whether this moment comes before another.
    pub fn before(&self, other: &Instant) -> (r: bool)
        ensures
            r == self.precedes(*other),
    {
        self.seconds < other.seconds || (self.seconds == other.seconds && self.nanos < other.nanos)
    }

    /// The nanoseconds from an earlier moment to this one. A leap second that
    /// one of the two moments names, and that lies between their times of day,
    /// is counted.
    pub open spec fn since(self, earlier: Instant) -> int {
        let clock = self.seconds as int % DAY as int;
        let earlier_clock = earlier.seconds as int % DAY as int;
        let leap: int = if clock > earlier_clock && earlier.nanos >= NANOS {
            1
        } else if clock < earlier_clock && self.nanos >= NANOS {
            -1
        } else {
            0
        };
        (self.seconds - earlier.seconds + leap) * NANOS + (self.nanos - earlier.nanos)
    }

    /// The seconds since midnight.
    fn clock(&self) -> (r: i128)
        ensures
            r == self.seconds as int % DAY as int,
    {
        let shifted: i128 = self.seconds as i128 + 86_400 * 110_000_000_000_000;
        proof {
            vstd::arithmetic::div_mod::lemma_mod_multiples_vanish(
                110_000_000_000_000,
                self.seconds as int,
                86_400,
            );
        }
        shifted % (DAY as i128)
    }

    /// The nanoseconds from an earlier moment to this one.
    pub fn nanos_since(&self, earlier: &Instant) -> (r: i128)
        ensures
            r == self.since(*earlier),
    {
        let clock: i128 = self.clock();
        let earlier_clock: i128 = earlier.clock();
        let leap: i128 = if clock > earlier_clock && earlier.nanos as i128 >= NANOS {
            1
        } else if clock < earlier_clock && self.nanos as i128 >= NANOS {
            -1
        } else {
            0
        };
        (self.seconds as i128 - earlier.seconds as i128 + leap) * NANOS + (self.nanos as i128
            - earlier.nanos as i128)
    }
}

/// The SHA-256 digest of a sequence of bytes.
pub uninterp spec fn sha256_digest(bytes: Seq<u8>) -> Seq<u8>;

/// `sha2::Sha256::digest`: the digest is a function of the bytes alone and has
/// 32 bytes.
#[verifier::external_body]
pub(crate) fn sha256(bytes: &Vec<u8>) -> (r: Vec<u8>)
    ensures
        r@ == sha256_digest(bytes@),
        r@.len() == 32,
{
    sha2::Sha256::digest(bytes).to_vec()
}

/// The lower-case hexadecimal digit of a number below sixteen.
pub open spec fn hex_digit(n: int) -> char {
    if n < 10 {
        (0x30 + n) as char
    } else {
        (0x57 + n) as char
    }
}

/// Two lower-case hexadecimal digits for each byte, the high one first.
pub open spec fn hex_text(bytes: Seq<u8>) -> Seq<char> {
    Seq::new(
        2 * bytes.len(),
        |i: int|
            if i % 2 == 0 {
                hex_digit(bytes[i / 2] as int / 16)
            } else {
                hex_digit(bytes[i / 2] as int % 16)
            },
    )
}

/// `hex::encode`: two lower-case hexadecimal digits for each byte, in order.
#[verifier::external_body]
pub(crate) fn hex_encode(bytes: &Vec<u8>) -> (r: String)
    ensures
        r@ == hex_text(bytes@),
{
    hex::encode(bytes)
}

/// A hexadecimal text has lower-case hexadecimal digits only.
pub proof fn hex_is_lower(bytes: Seq<u8>)
    ensures
        all_lower_hex(hex_text(bytes)),
{
}

/// Different bytes have different hexadecimal texts.
pub proof fn hex_reads_back(a: Seq<u8>, b: Seq<u8>)
    requires
        hex_text(a) == hex_text(b),
    ensures
        a == b,
{
    assert(hex_text(a).len() == 2 * a.len());
    assert(hex_text(b).len() == 2 * b.len());
    assert forall|i: int| 0 <= i < a.len() implies a[i] == b[i] by {
        assert(hex_text(a)[2 * i] == hex_digit(a[i] as int / 16));
        assert(hex_text(b)[2 * i] == hex_digit(b[i] as int / 16));
        assert(hex_text(a)[2 * i + 1] == hex_digit(a[i] as int % 16));
        assert(hex_text(b)[2 * i + 1] == hex_digit(b[i] as int % 16));
        digits_differ(a[i] as int / 16, b[i] as int / 16);
        digits_differ(a[i] as int % 16, b[i] as int % 16);
    }
    assert(a =~= b);
}

proof fn digits_differ(m: int, n: int)
    requires
        0 <= m < 16,
        0 <= n < 16,
        hex_digit(m) == hex_digit(n),
    ensures
        m == n,
{
}

/// The SHA-256 digest of bytes, in lower-case hexadecimal.
pub open spec fn sha256_hex(bytes: Seq<u8>) -> Seq<char> {
    hex_text(sha256_digest(bytes))
}

/// The SHA-256 digest of bytes, in lower-case hexadecimal.
pub fn hex_digest(bytes: &Vec<u8>) -> (r: String)
    ensures
        r@ == sha256_hex(bytes@),
        r@.len() == 64,
        all_lower_hex(r@),
{
    let digest = sha256(bytes);
    proof {
        hex_is_lower(digest@);
    }
    hex_encode(&digest)
}

/// What `chrono::DateTime::to_rfc3339_opts`, with whole seconds and `Z`, makes of
/// a moment, where `chrono::DateTime::from_timestamp` can represent the moment.
pub uninterp spec fn rfc3339_text(seconds: i64, nanos: u32) -> Option<Seq<char>>;

/// `chrono::DateTime::from_timestamp` and then `to_rfc3339_opts` with whole
/// seconds and `Z`: the text is a function of the moment alone.
#[verifier::external_body]
pub(crate) fn format_rfc3339(at: Instant) -> (r: Option<String>)
    ensures
        opt_view(r) == rfc3339_text(at.seconds, at.nanos),
{
    chrono::DateTime::from_timestamp(at.seconds, at.nanos).map(
        |at| at.to_rfc3339_opts(chrono::SecondsFormat::Secs, true),
    )
}

/// The latest moment, in seconds, that a calendar date can name.
pub const LAST_SECOND: i64 = 8_210_266_876_799;

impl Instant {
    /// The moment that comes a number of seconds later. A moment inside a leap
    /// second leaves it.
    pub open spec fn later(self, seconds: u64) -> Instant {
        Instant {
            seconds: (self.seconds + seconds) as i64,
            nanos: if seconds > 0 && self.nanos >= NANOS {
                (self.nanos - NANOS) as u32
            } else {
                self.nanos
            },
        }
    }

    /// The moment that comes a number of seconds later.
    pub fn plus_seconds(&self, seconds: u64) -> (r: Instant)
        requires
            self.seconds + seconds <= LAST_SECOND,
        ensures
            r == self.later(seconds),
    {
        let sum: i128 = self.seconds as i128 + seconds as i128;
        Instant {
            seconds: sum as i64,
            nanos: if seconds > 0 && self.nanos >= 1_000_000_000 {
                self.nanos - 1_000_000_000
            } else {
                self.nanos
            },
        }
    }
}

/// What `str::parse` says of a text that is no 64-bit number.
pub uninterp spec fn number_error(text: Seq<char>) -> Seq<char>;

/// `str::parse` to `u64`: it succeeds on an optional plus sign followed by
/// decimal digits whose value fits in 64 bits, and its error says a function of
/// the text alone.
#[verifier::external_body]
pub(crate) fn parse_number(text: &str) -> (r: Result<u64, String>)
    ensures
        match r {
            Ok(n) => number_of(text@) == Some(n as nat),
            Err(message) => (number_of(text@) is None || number_of(text@)->0 > u64::MAX)
                && message@ == number_error(text@),
        },
{
    text.parse::<u64>().map_err(|error| error.to_string())
}

/// What `serde_json::to_vec` makes of a repository, a branch and labels as one
/// list.
pub uninterp spec fn target_json(repo: Seq<char>, base: Seq<char>, labels: Seq<Seq<char>>) -> Seq<
    u8,
>;

/// `serde_json::to_vec` on a repository, a branch and labels as one list: the
/// bytes are a function of the texts alone. It fails only where a value refuses to
/// be written or a map has keys that are no texts; a list of texts does neither.
#[verifier::external_body]
pub(crate) fn encode_target(repo: &str, base: &str, labels: &Vec<String>) -> (r: Result<Vec<u8>, String>)
    ensures
        r is Ok,
        r->Ok_0@ == target_json(repo@, base@, views(labels@)),
{
    serde_json::to_vec(&(repo, base, labels)).map_err(|error| error.to_string())
}

} // verus!
