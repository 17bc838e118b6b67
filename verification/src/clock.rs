//! Wall-clock readings and the text forms the launcher gives them:
//! `HH:MM:SS` stamps, log stamps with milliseconds, calendar dates and
//! session identifiers.
use vstd::prelude::*;
use crate::text::{dec, dec_pad, digit_char, hex, pad_left, push_char, push_digits, push_padded};

verus! {

#[verifier::external_type_specification]
#[verifier::external_body]
pub struct ExSystemTime(std::time::SystemTime);

#[verifier::external_type_specification]
#[verifier::external_body]
pub struct ExSystemTimeError(std::time::SystemTimeError);

/// `std::time::SystemTime::now`: the current wall-clock time. Nothing is
/// promised of the value, which depends on the machine's clock.
#[verifier::external_body]
fn system_time_now() -> (t: std::time::SystemTime) {
    std::time::SystemTime::now()
}

/// `SystemTime::duration_since(UNIX_EPOCH)`: the time elapsed since the epoch,
/// or an error when the clock stands before it. Nothing is promised of the value.
#[verifier::external_body]
fn since_epoch(t: &std::time::SystemTime) -> (r: Result<std::time::Duration, std::time::SystemTimeError>) {
    t.duration_since(std::time::UNIX_EPOCH)
}

/// `Duration::as_secs`: whole seconds of a duration. Nothing is claimed of
/// the value: every duration here comes from the clock.
#[verifier::external_body]
fn duration_secs(d: &std::time::Duration) -> (r: u64) {
    d.as_secs()
}

/// `Duration::subsec_nanos`: the fractional part of a duration in whole
/// nanoseconds, which the documentation promises to be below one billion.
#[verifier::external_body]
fn duration_subsec_nanos(d: &std::time::Duration) -> (r: u32)
    ensures
        r < 1_000_000_000,
{
    d.subsec_nanos()
}

/// A reading of the clock since the Unix epoch: whole seconds, the
/// millisecond part, total milliseconds and total nanoseconds. A clock set
/// before the epoch reads as zero.
pub struct ClockReading {
    pub secs: u64,
    pub subsec_millis: u32,
    pub total_millis: u128,
    pub total_nanos: u128,
}

/// The parts of a reading agree: the milliseconds are the whole seconds
/// and the millisecond part (`Duration::as_millis`), and the nanoseconds
/// are the whole seconds and a part below one second that holds the
/// millisecond part (`Duration::as_nanos`).
pub open spec fn consistent_reading(r: ClockReading) -> bool {
    &&& r.subsec_millis < 1000
    &&& r.total_millis == r.secs * 1000 + r.subsec_millis
    &&& r.secs * 1_000_000_000 + r.subsec_millis * 1_000_000 <= r.total_nanos
    &&& r.total_nanos < r.secs * 1_000_000_000 + (r.subsec_millis + 1) * 1_000_000
}

/// Reads the clock: the time elapsed since the epoch, or zero where the
/// clock stands before it; which time it reads is the clock's.
pub fn read_clock() -> (r: ClockReading)
    ensures
        consistent_reading(r),
{
    let now = system_time_now();
    match since_epoch(&now) {
        Ok(d) => {
            let secs = duration_secs(&d);
            let nanos = duration_subsec_nanos(&d);
            let millis = nanos / 1_000_000;
            assert(millis * 1_000_000 <= nanos < (millis + 1) * 1_000_000) by (nonlinear_arith)
                requires
                    millis == nanos / 1_000_000,
            ;
            ClockReading {
                secs,
                subsec_millis: millis,
                total_millis: secs as u128 * 1000 + millis as u128,
                total_nanos: secs as u128 * 1_000_000_000 + nanos as u128,
            }
        },
        Err(_) => ClockReading { secs: 0, subsec_millis: 0, total_millis: 0, total_nanos: 0 },
    }
}

/// `HH:MM:SS` of the time of day that `secs` seconds after the epoch fall on (UTC).
pub open spec fn hms_text(secs: nat) -> Seq<char> {
    dec_pad((secs / 3600) % 24, 2) + seq![':'] + dec_pad((secs / 60) % 60, 2) + seq![':']
        + dec_pad(secs % 60, 2)
}

/// Formats a timestamp as `HH:MM:SS`.
pub fn format_ts(secs: u64) -> (r: String)
    ensures
        r@ == hms_text(secs as nat),
{
    let mut s = String::new();
    push_padded(&mut s, ((secs / 3600) % 24) as u128, 10, 2);
    push_char(&mut s, ':');
    push_padded(&mut s, ((secs / 60) % 60) as u128, 10, 2);
    push_char(&mut s, ':');
    push_padded(&mut s, (secs % 60) as u128, 10, 2);
    s
}

/// The current time of day as `HH:MM:SS`.
pub fn now_str() -> (r: String)
    ensures
        exists|secs: u64| r@ == hms_text(secs as nat),
{
    let c = read_clock();
    format_ts(c.secs)
}

/// `HH:MM:SS.mmm`, the stamp that starts each log line.
pub open spec fn log_stamp_text(secs: nat, millis: nat) -> Seq<char> {
    dec_pad((secs % 86400) / 3600, 2) + seq![':'] + dec_pad((secs % 3600) / 60, 2) + seq![':']
        + dec_pad(secs % 60, 2) + seq!['.'] + dec_pad(millis, 3)
}

/// Formats the stamp of a log line from whole seconds and the millisecond part.
pub fn log_stamp(secs: u64, millis: u32) -> (r: String)
    ensures
        r@ == log_stamp_text(secs as nat, millis as nat),
{
    let mut s = String::new();
    push_padded(&mut s, ((secs % 86400) / 3600) as u128, 10, 2);
    push_char(&mut s, ':');
    push_padded(&mut s, ((secs % 3600) / 60) as u128, 10, 2);
    push_char(&mut s, ':');
    push_padded(&mut s, (secs % 60) as u128, 10, 2);
    push_char(&mut s, '.');
    push_padded(&mut s, millis as u128, 10, 3);
    s
}

/// The low sixteen bits of a nanosecond count.
pub fn low_16_bits(nanos: u128) -> (r: u16)
    ensures
        r == nanos % 0x1_0000,
{
    (nanos % 0x1_0000) as u16
}

/// A cheap, non-cryptographic 16-bit value: the low bits of the current
/// nanosecond count. Which value comes out depends on the clock.
pub fn rand_4hex() -> (r: u16) {
    let c = read_clock();
    low_16_bits(c.total_nanos)
}

/// A session identifier: `s`, the seconds in lower-case hexadecimal, then the
/// 16-bit value as four lower-case hexadecimal digits.
pub open spec fn session_id_text(secs: nat, salt: nat) -> Seq<char> {
    seq!['s'] + hex(secs) + pad_left(hex(salt), 4, '0')
}

/// Builds the session identifier of [`session_id_text`].
pub fn session_id(secs: u64, salt: u16) -> (r: String)
    ensures
        r@ == session_id_text(secs as nat, salt as nat),
{
    let mut s = String::new();
    push_char(&mut s, 's');
    push_digits(&mut s, secs as u128, 16);
    push_padded(&mut s, salt as u128, 16, 4);
    s
}

/// A fresh session identifier from the clock.
pub fn generate_id() -> (r: String)
    ensures
        exists|secs: u64, salt: u16| r@ == session_id_text(secs as nat, salt as nat),
{
    let c = read_clock();
    let salt = rand_4hex();
    session_id(c.secs, salt)
}

/// A stamp names the time of day only: two instants the same number of
/// seconds into their days get the same `HH:MM:SS`, and it repeats every day.
pub proof fn law_time_of_day_repeats_daily(secs: nat)
    ensures
        hms_text(secs) == hms_text(secs % 86400),
        hms_text(secs + 86400) == hms_text(secs),
{
    let r = secs % 86400;
    let q = secs / 86400;
    assert(secs == q * 86400 + r && r < 86400) by (nonlinear_arith)
        requires
            r == secs % 86400,
            q == secs / 86400,
    ;
    assert((secs / 3600) % 24 == (r / 3600) % 24) by (nonlinear_arith)
        requires
            secs == q * 86400 + r,
            0 <= r < 86400,
            q >= 0,
    ;
    assert((secs / 60) % 60 == (r / 60) % 60) by (nonlinear_arith)
        requires
            secs == q * 86400 + r,
            0 <= r < 86400,
            q >= 0,
    ;
    assert(secs % 60 == r % 60) by (nonlinear_arith)
        requires
            secs == q * 86400 + r,
            0 <= r < 86400,
            q >= 0,
    ;
    let t = secs + 86400;
    assert(t % 86400 == r) by (nonlinear_arith)
        requires
            secs == q * 86400 + r,
            0 <= r < 86400,
            t == secs + 86400,
    ;
    assert(((t / 3600) % 24 == (r / 3600) % 24) && ((t / 60) % 60 == (r / 60) % 60) && (t % 60 == r % 60)) by (nonlinear_arith)
        requires
            t == (q + 1) * 86400 + r,
            0 <= r < 86400,
            q >= 0,
    ;
}

proof fn lemma_two_digits(n: nat)
    requires
        n < 100,
    ensures
        dec_pad(n, 2) =~= seq![digit_char(n / 10), digit_char(n % 10)],
{
    if n < 10 {
        assert(dec(n) == seq![digit_char(n)]);
        assert(digit_char(0) == '0');
    } else {
        assert(n / 10 < 10);
        assert(dec(n / 10) == seq![digit_char(n / 10)]);
        assert(dec(n) == dec(n / 10).push(digit_char(n % 10)));
    }
}

proof fn lemma_digit_char_injective(a: nat, b: nat)
    requires
        a < 10,
        b < 10,
        digit_char(a) == digit_char(b),
    ensures
        a == b,
{
    assert(digit_char(a) as u32 == a + 48);
    assert(digit_char(b) as u32 == b + 48);
}

/// The eight characters of a stamp: the hour, minute and second digits with
/// `:` between them.
pub open spec fn hms_chars(secs: nat) -> Seq<char> {
    let h = (secs / 3600) % 24;
    let m = (secs / 60) % 60;
    let s = secs % 60;
    seq![
        digit_char(h / 10),
        digit_char(h % 10),
        ':',
        digit_char(m / 10),
        digit_char(m % 10),
        ':',
        digit_char(s / 10),
        digit_char(s % 10),
    ]
}

proof fn lemma_hms_chars(secs: nat)
    ensures
        hms_text(secs) == hms_chars(secs),
{
    lemma_two_digits((secs / 3600) % 24);
    lemma_two_digits((secs / 60) % 60);
    lemma_two_digits(secs % 60);
    assert(hms_text(secs) =~= hms_chars(secs));
}

proof fn lemma_second_of_day(a: nat)
    requires
        a < 86400,
    ensures
        a == ((a / 3600) % 24) * 3600 + ((a / 60) % 60) * 60 + a % 60,
{
    assert(a == ((a / 3600) % 24) * 3600 + ((a / 60) % 60) * 60 + a % 60) by (nonlinear_arith)
        requires
            a < 86400,
    ;
}

proof fn lemma_two_digit_parts(x: nat, y: nat)
    requires
        x / 10 == y / 10,
        x % 10 == y % 10,
    ensures
        x == y,
{
    assert(x == (x / 10) * 10 + x % 10 && y == (y / 10) * 10 + y % 10) by (nonlinear_arith);
}

/// A time-of-day stamp is eight characters, `HH:MM:SS`: two digits each for
/// the hour, the minute and the second, with `:` between them.
pub proof fn law_time_stamp_shape(secs: nat)
    ensures
        hms_text(secs).len() == 8,
        hms_text(secs)[2] == ':',
        hms_text(secs)[5] == ':',
        forall|i: int| 0 <= i < 8 && i != 2 && i != 5 ==> '0' <= #[trigger] hms_text(secs)[i] <= '9',
{
    lemma_hms_chars(secs);
}

/// Within a day each second has its own stamp: two instants less than a day
/// from midnight with the same `HH:MM:SS` are the same second.
pub proof fn law_time_stamp_one_per_second(a: nat, b: nat)
    requires
        a < 86400,
        b < 86400,
        hms_text(a) == hms_text(b),
    ensures
        a == b,
{
    lemma_hms_chars(a);
    lemma_hms_chars(b);
    let ta = hms_chars(a);
    let tb = hms_chars(b);
    assert(ta[0] == tb[0] && ta[1] == tb[1] && ta[3] == tb[3] && ta[4] == tb[4] && ta[6] == tb[6] && ta[7] == tb[7]);
    let (ha, ma, sa) = ((a / 3600) % 24, (a / 60) % 60, a % 60);
    let (hb, mb, sb) = ((b / 3600) % 24, (b / 60) % 60, b % 60);
    lemma_digit_char_injective(ha / 10, hb / 10);
    lemma_digit_char_injective(ha % 10, hb % 10);
    lemma_digit_char_injective(ma / 10, mb / 10);
    lemma_digit_char_injective(ma % 10, mb % 10);
    lemma_digit_char_injective(sa / 10, sb / 10);
    lemma_digit_char_injective(sa % 10, sb % 10);
    lemma_two_digit_parts(ha, hb);
    lemma_two_digit_parts(ma, mb);
    lemma_two_digit_parts(sa, sb);
    lemma_second_of_day(a);
    lemma_second_of_day(b);
}
} // verus!
