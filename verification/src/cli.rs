//! The stand-alone player's command line: durations given in seconds, and
//! the settings a stream starts with.

use crate::duration::{duration_secs, from_secs, secs_duration};
use std::num::ParseIntError;
use std::time::Duration;
use vstd::prelude::*;

verus! {

/// std's error for a number that does not parse.
#[verifier::external_type_specification]
#[verifier::external_body]
pub struct ExParseIntError(std::num::ParseIntError);

/// Whether every character of `s` is an ASCII digit, and there is one.
pub open spec fn all_digits(s: Seq<char>) -> bool {
    s.len() >= 1 && forall|i: int| 0 <= i < s.len() ==> '0' <= #[trigger] s[i] <= '9'
}

/// The number that decimal digits spell.
pub open spec fn digits_value(s: Seq<char>) -> nat
    decreases s.len(),
{
    if s.len() == 0 {
        0
    } else {
        digits_value(s.drop_last()) * 10 + (s.last() as nat - '0' as nat) as nat
    }
}

/// The number a text spells as `u64::from_str` reads it: an optional `+`,
/// then decimal digits and nothing else.
pub open spec fn decimal(s: Seq<char>) -> Option<nat> {
    let body = if s.len() > 0 && s[0] == '+' {
        s.drop_first()
    } else {
        s
    };
    if all_digits(body) {
        Some(digits_value(body))
    } else {
        None
    }
}

/// The error that `str::parse::<u64>` gives for a text it refuses (its kind
/// tells an empty text, a stray character and an overflow apart).
pub uninterp spec fn u64_parse_error(arg: Seq<char>) -> ParseIntError;

/// Calls `str::parse::<u64>`, which reads an optional `+` and decimal digits,
/// and fails on anything else and on numbers past `u64::MAX`; its error is
/// named by `u64_parse_error`.
#[verifier::external_body]
fn parse_u64(arg: &str) -> (r: Result<u64, ParseIntError>)
    ensures
        r is Ok <==> (decimal(arg@) matches Some(v) && v <= u64::MAX),
        r matches Ok(v) ==> decimal(arg@) == Some(v as nat),
        r matches Err(e) ==> e == u64_parse_error(arg@),
{
    arg.parse::<u64>()
}

/// The decimal digit for `d` below ten.
pub open spec fn digit_char(d: nat) -> char {
    (d + 48) as char
}

/// The decimal text of `n` as `u64::to_string` writes it: its digits, most
/// significant first, with no leading zero (and `0` for zero).
pub open spec fn decimal_text(n: nat) -> Seq<char>
    decreases n,
{
    if n < 10 {
        seq![digit_char(n)]
    } else {
        decimal_text(n / 10).push(digit_char(n % 10))
    }
}

/// The decimal text of a number is all digits, starts with no `+`, and
/// spells the number.
proof fn lemma_decimal_text_digits(n: nat)
    ensures
        all_digits(decimal_text(n)),
        decimal_text(n)[0] != '+',
        digits_value(decimal_text(n)) == n,
    decreases n,
{
    let t = decimal_text(n);
    if n < 10 {
        assert(t.drop_last() =~= Seq::<char>::empty());
        assert(digit_char(n) as nat == n + 48);
        assert('0' as nat == 48);
        assert(t.last() == digit_char(n));
        assert(digits_value(t) == digits_value(t.drop_last()) * 10 + (t.last() as nat - '0' as nat) as nat);
    } else {
        lemma_decimal_text_digits(n / 10);
        let h = decimal_text(n / 10);
        assert(t.drop_last() =~= h);
        assert(digit_char(n % 10) as nat == n % 10 + 48);
        assert(t[0] == h[0]);
        assert forall|i: int| 0 <= i < t.len() implies '0' <= #[trigger] t[i] <= '9' by {
            if i < h.len() {
                assert(t[i] == h[i]);
            }
        }
        assert('0' as nat == 48);
        assert(t.last() == digit_char(n % 10));
        assert(digits_value(t) == digits_value(t.drop_last()) * 10 + (t.last() as nat - '0' as nat) as nat);
        assert(n == (n / 10) * 10 + n % 10);
    }
}

/// Reading the decimal text of any `u64` gives the number back; so
/// `parse_duration` of it is `Duration::from_secs` of the number, and a
/// duration that `parse_duration` made reads back from the decimal text of
/// its whole seconds as itself.
pub proof fn lemma_parse_decimal_text(n: u64)
    ensures
        decimal(decimal_text(n as nat)) == Some(n as nat),
{
    lemma_decimal_text_digits(n as nat);
}

/// A duration given as a whole number of seconds: `Duration::from_secs` of
/// the number, or the error `str::parse::<u64>` gives.
pub fn parse_duration(arg: &str) -> (r: Result<Duration, ParseIntError>)
    ensures
        r is Ok <==> (decimal(arg@) matches Some(v) && v <= u64::MAX),
        r matches Ok(d) ==> (decimal(arg@) matches Some(v) && d == secs_duration(v as u64)
            && duration_secs(d) == v),
        r matches Err(e) ==> e == u64_parse_error(arg@),
{
    match parse_u64(arg) {
        Ok(seconds) => Ok(from_secs(seconds)),
        Err(e) => Err(e),
    }
}

/// What the stand-alone player was asked on its command line.
#[derive(Debug)]
pub struct Args {
    /// The file or URL to play.
    pub source: String,
    /// The volume in percent.
    pub volume: Option<usize>,
    /// Where to start.
    pub at: Option<Duration>,
}

/// What a stream starts with.
#[derive(Debug)]
pub struct StreamSettings {
    /// The file or URL to play.
    pub source: String,
    /// The volume to set.
    pub volume: i64,
    /// Where to start.
    pub at: Duration,
}

/// The settings a stream starts with: the source as given, the volume given
/// or 80, the start given or the beginning (`Duration::from_secs(0)`, which
/// is `Duration::ZERO`).
pub fn execute(args: Args) -> (s: StreamSettings)
    ensures
        s.source == args.source,
        s.volume == (match args.volume {
            Some(v) => v as i64,
            None => 80,
        }),
        match args.at {
            Some(d) => s.at == d,
            None => s.at == secs_duration(0),
        },
{
    let volume = match args.volume {
        Some(v) => v as i64,
        None => 80,
    };
    let at = match args.at {
        Some(d) => d,
        None => from_secs(0),
    };
    StreamSettings { source: args.source, volume, at }
}

} // verus!
