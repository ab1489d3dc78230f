use vstd::prelude::*;

use chrono::{TimeZone, Timelike};

use crate::text::{dec_digit, dec_digit_char, push_char, string_of};

verus! {

/// Relies on `SystemTime::elapsed` from the Unix epoch (which reads the
/// system clock): whole seconds since then, or 0 for a clock set before it.
#[verifier::external_body]
pub(crate) fn now_unix_secs() -> (r: u64) {
    std::time::UNIX_EPOCH.elapsed().map(|d| d.as_secs()).unwrap_or(0)
}

/// The signed instant that a capture time is looked up at: the seconds
/// themselves, or the epoch for a time past the signed range.
pub fn clock_instant(unix_secs: u64) -> (r: i64)
    ensures
        r == (if unix_secs <= i64::MAX as u64 { unix_secs as i64 } else { 0 }),
{
    if unix_secs <= i64::MAX as u64 {
        unix_secs as i64
    } else {
        0
    }
}

/// Relies on chrono's `Local.timestamp_opt(secs, 0).single()` and `Timelike`:
/// the hour, minute and second of the instant in the machine's time zone,
/// or `None` where that local time is ambiguous or does not exist.
#[verifier::external_body]
pub(crate) fn local_hms(unix_secs: i64) -> (r: Option<(u32, u32, u32)>)
    ensures
        r matches Some((h, m, s)) ==> h < 24 && m < 60 && s < 60,
{
    chrono::Local
        .timestamp_opt(unix_secs, 0)
        .single()
        .map(|dt| (dt.hour(), dt.minute(), dt.second()))
}

/// Two decimal digits, zero-padded, for a value below 100.
pub open spec fn two_digits(n: nat) -> Seq<char> {
    seq![dec_digit(n / 10), dec_digit(n % 10)]
}

/// `HH:MM:SS` for a local time of day, or `??:??:??` where there is none.
pub open spec fn clock_text(t: Option<(u32, u32, u32)>) -> Seq<char> {
    match t {
        Some((h, m, s)) => two_digits(h as nat) + seq![':'] + two_digits(m as nat) + seq![':']
            + two_digits(s as nat),
        None => seq!['?', '?', ':', '?', '?', ':', '?', '?'],
    }
}

fn push_two_digits(out: &mut String, n: u32)
    requires
        n < 100,
    ensures
        final(out)@ == old(out)@ + two_digits(n as nat),
{
    push_char(out, dec_digit_char((n / 10) as u64));
    push_char(out, dec_digit_char((n % 10) as u64));
    assert(final(out)@ =~= old(out)@ + two_digits(n as nat));
}

/// Renders a local time of day as `HH:MM:SS`; `None` renders as `??:??:??`.
pub fn format_clock(t: Option<(u32, u32, u32)>) -> (r: String)
    requires
        t matches Some((h, m, s)) ==> h < 100 && m < 100 && s < 100,
    ensures
        r@ == clock_text(t),
{
    let mut out = String::new();
    match t {
        Some((h, m, s)) => {
            push_two_digits(&mut out, h);
            push_char(&mut out, ':');
            push_two_digits(&mut out, m);
            push_char(&mut out, ':');
            push_two_digits(&mut out, s);
        },
        None => {
            out = string_of("??:??:??");
            proof {
                reveal_strlit("??:??:??");
            }
        },
    }
    assert(out@ =~= clock_text(t));
    out
}

} // verus!
