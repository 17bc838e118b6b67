use soul_agent_launcher::calendar::{civil_from_days, date_of_secs, iso_timestamp};
use soul_agent_launcher::clock::{format_ts, log_stamp, session_id};
use soul_agent_launcher::sizes::format_size;

fn float_size(bytes: u64) -> String {
    const KB: u64 = 1024;
    const MB: u64 = KB * 1024;
    const GB: u64 = MB * 1024;
    if bytes >= GB {
        format!("{:.2} GB", bytes as f64 / GB as f64)
    } else if bytes >= MB {
        format!("{:.2} MB", bytes as f64 / MB as f64)
    } else {
        format!("{:.2} KB", bytes as f64 / KB as f64)
    }
}

fn float_iso(secs: u64) -> String {
    let s = (secs as i64).wrapping_add(8 * 3600);
    let h = (s / 3600) % 24;
    let m = (s / 60) % 60;
    let sec = s % 60;
    let d = s / 86400;
    let year = 1970 + (d as f64 / 365.25) as i64;
    let month = 1 + ((d % 365) / 30) as i64;
    let day = 1 + ((d % 365) % 30) as i64;
    format!("{:04}-{:02}-{:02} {:02}:{:02}:{:02}", year, month.min(12).max(1), day.min(31).max(1), h, m, sec)
}

fn loop_date(secs: u64) -> String {
    let days = secs / 86400;
    let mut y = 1970u64;
    let mut d = days;
    loop {
        let year_days = if (y % 4 == 0 && y % 100 != 0) || y % 400 == 0 { 366 } else { 365 };
        if d < year_days { break; }
        d -= year_days;
        y += 1;
    }
    let months_days = [31, 28, 31, 30, 31, 30, 31, 31, 30, 31, 30, 31];
    let leap = (y % 4 == 0 && y % 100 != 0) || y % 400 == 0;
    let mut m = 0;
    while m < 12 {
        let md = if m == 1 && leap { 29 } else { months_days[m] };
        if d < md as u64 { break; }
        d -= md as u64;
        m += 1;
    }
    format!("{:04}-{:02}-{:02}", y, m + 1, d + 1)
}

#[test]
fn format_size_matches_float_formatting() {
    let mut values: Vec<u64> = vec![
        0, 1, 5, 10, 512, 1023, 1024, 1025, 1536, 2047, 1048575, 1048576, 1572864,
        1073741823, 1073741824, 1610612736, 5_000_000_000, 123_456_789_012,
        (1u64 << 53) - 1, 1u64 << 53, (1u64 << 53) + 1, (1u64 << 53) + 3, (1u64 << 54) + 2,
        (1u64 << 54) + 6, u64::MAX, u64::MAX - 1, u64::MAX / 3,
    ];
    // values whose hundredths fall exactly half-way
    for k in 0..2000u64 {
        values.push(k * 1024 / 200 + k);
        values.push(1024 * k + 5 * 128 + 64 * (k % 3));
        values.push(1048576 * (k + 1) + 5242 * k);
        values.push((1u64 << 30) * (k % 7 + 1) + (1u64 << 20) * 5 * k);
    }
    let mut x: u64 = 0x9E3779B97F4A7C15;
    for _ in 0..20000 {
        x ^= x << 13;
        x ^= x >> 7;
        x ^= x << 17;
        values.push(x >> (x % 60));
        values.push(x);
    }
    for v in values {
        assert_eq!(format_size(v), float_size(v), "bytes = {}", v);
    }
}

#[test]
fn format_size_examples() {
    assert_eq!(format_size(0), "0.00 KB");
    assert_eq!(format_size(1536), "1.50 KB");
    assert_eq!(format_size(1048576), "1.00 MB");
    assert_eq!(format_size(1610612736), "1.50 GB");
    // 0.625 KB lies half-way between hundredths
    assert_eq!(format_size(640), float_size(640));
}

#[test]
fn format_ts_examples() {
    assert_eq!(format_ts(0), "00:00:00");
    assert_eq!(format_ts(3661), "01:01:01");
    assert_eq!(format_ts(86399), "23:59:59");
    assert_eq!(format_ts(86400 + 59), "00:00:59");
    for s in [1u64, 59, 60, 3599, 3600, 123456789, u64::MAX] {
        let expected = format!("{:02}:{:02}:{:02}", (s / 3600) % 24, (s / 60) % 60, s % 60);
        assert_eq!(format_ts(s), expected);
    }
}

#[test]
fn log_stamp_examples() {
    assert_eq!(log_stamp(3661, 7), "01:01:01.007");
    assert_eq!(log_stamp(86400 * 3 + 45296, 999), "12:34:56.999");
}

#[test]
fn iso_timestamp_matches_float_formula() {
    let mut values: Vec<u64> = vec![0, 1, 59, 86399, 86400, 1_700_000_000, 1_725_029_869, 4_102_444_800,
        253_402_300_799, 1u64 << 40, (1u64 << 63) - 28801, (1u64 << 63) - 1, 1u64 << 63,
        (1u64 << 63) + 1, u64::MAX, u64::MAX - 28799, u64::MAX - 28800];
    let mut x: u64 = 88172645463325252;
    for _ in 0..20000 {
        x ^= x << 13;
        x ^= x >> 7;
        x ^= x << 17;
        values.push(x >> (x % 64));
    }
    for d in 0..3000u64 {
        values.push(d * 86400 + 12345);
    }
    for v in values {
        assert_eq!(iso_timestamp(v), float_iso(v), "secs = {}", v);
    }
}

#[test]
fn iso_timestamp_example() {
    assert_eq!(iso_timestamp(0), "1970-01-01 08:00:00");
}

#[test]
fn date_matches_year_loop() {
    for k in 0..30000u64 {
        let secs = k * 86400 + (k % 86400);
        assert_eq!(date_of_secs(secs), loop_date(secs));
    }
    assert_eq!(date_of_secs(0), "1970-01-01");
    assert_eq!(date_of_secs(951_782_400), "2000-02-29");
    assert_eq!(date_of_secs(1_725_029_869), "2024-08-30");
}

#[test]
fn civil_from_days_examples() {
    assert_eq!(civil_from_days(0), (1970, 1, 1));
    assert_eq!(civil_from_days(59), (1970, 3, 1));
    assert_eq!(civil_from_days(365), (1971, 1, 1));
    assert_eq!(civil_from_days(11016), (2000, 2, 29));
}

#[test]
fn session_id_example() {
    assert_eq!(session_id(0x65a1b2c3, 0x2f), "s65a1b2c3002f");
    assert_eq!(session_id(255, 0xffff), "sffffff");
    assert_eq!(session_id(1, 0), "s10000");
}

#[test]
fn every_second_of_a_day_has_its_own_stamp() {
    let mut seen = std::collections::HashSet::new();
    for s in 0..86400u64 {
        let t = format_ts(s);
        assert_eq!(t.len(), 8);
        assert_eq!((&t[2..3], &t[5..6]), (":", ":"));
        assert_eq!(format_ts(s + 86400), t);
        assert!(seen.insert(t));
    }
}
