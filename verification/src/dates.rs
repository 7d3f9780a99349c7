use vstd::prelude::*;
use vstd::string::*;

verus! {

/// A Gregorian calendar date, held as plain year/month/day numbers.
#[derive(Clone, Copy, PartialEq, Eq, Structural, Debug)]
pub struct Date {
    pub year: u16,
    pub month: u8,
    pub day: u8,
}

/// A time of day on a 24-hour clock.
#[derive(Clone, Copy, PartialEq, Eq, Structural, Debug)]
pub struct TimeOfDay {
    pub hour: u8,
    pub minute: u8,
    pub second: u8,
}

/// A full timestamp: a date plus a time of day.
#[derive(Clone, Copy, PartialEq, Eq, Structural, Debug)]
pub struct DateTime {
    pub date: Date,
    pub time: TimeOfDay,
}

pub open spec fn is_leap_year(y: int) -> bool {
    (y % 4 == 0 && y % 100 != 0) || y % 400 == 0
}

pub open spec fn days_in_month(y: int, m: int) -> int {
    if m == 2 {
        if is_leap_year(y) {
            29
        } else {
            28
        }
    } else if m == 4 || m == 6 || m == 9 || m == 11 {
        30
    } else {
        31
    }
}

pub open spec fn date_valid(d: Date) -> bool {
    d.year <= 9999 && 1 <= d.month <= 12 && 1 <= d.day <= days_in_month(
        d.year as int,
        d.month as int,
    )
}

pub open spec fn time_valid(t: TimeOfDay) -> bool {
    t.hour < 24 && t.minute < 60 && t.second < 60
}

pub open spec fn datetime_valid(dt: DateTime) -> bool {
    date_valid(dt.date) && time_valid(dt.time)
}

fn days_in_month_x(y: u16, m: u8) -> (r: u8)
    requires
        1 <= m <= 12,
    ensures
        r == days_in_month(y as int, m as int),
{
    if m == 2 {
        let y32: u32 = y as u32;
        if (y32 % 4 == 0 && y32 % 100 != 0) || y32 % 400 == 0 {
            29
        } else {
            28
        }
    } else if m == 4 || m == 6 || m == 9 || m == 11 {
        30
    } else {
        31
    }
}

// ---------- decimal digits ----------

pub open spec fn is_digit(b: u8) -> bool {
    ('0' as u8) <= b <= ('9' as u8)
}

pub open spec fn digit_of(n: int) -> u8
    recommends
        0 <= n <= 9,
{
    (('0' as u8) + n) as u8
}

pub open spec fn digit_val(b: u8) -> int {
    b - ('0' as u8)
}

/// Two decimal digits, zero padded.
pub open spec fn ser2(n: int) -> Seq<u8> {
    seq![digit_of(n / 10), digit_of(n % 10)]
}

/// Four decimal digits, zero padded.
pub open spec fn ser4(n: int) -> Seq<u8> {
    seq![
        digit_of(n / 1000),
        digit_of((n / 100) % 10),
        digit_of((n / 10) % 10),
        digit_of(n % 10),
    ]
}

pub open spec fn val2(a: u8, b: u8) -> int {
    digit_val(a) * 10 + digit_val(b)
}

pub open spec fn val4(a: u8, b: u8, c: u8, d: u8) -> int {
    digit_val(a) * 1000 + digit_val(b) * 100 + digit_val(c) * 10 + digit_val(d)
}

pub proof fn lemma_ser2_rt(n: int)
    requires
        0 <= n < 100,
    ensures
        ser2(n).len() == 2,
        is_digit(ser2(n)[0]),
        is_digit(ser2(n)[1]),
        val2(ser2(n)[0], ser2(n)[1]) == n,
{
    assert(0 <= n / 10 <= 9) by (nonlinear_arith)
        requires
            0 <= n < 100,
    ;
    assert(n / 10 * 10 + n % 10 == n) by (nonlinear_arith);
}

pub proof fn lemma_ser4_rt(n: int)
    requires
        0 <= n < 10000,
    ensures
        ser4(n).len() == 4,
        is_digit(ser4(n)[0]),
        is_digit(ser4(n)[1]),
        is_digit(ser4(n)[2]),
        is_digit(ser4(n)[3]),
        val4(ser4(n)[0], ser4(n)[1], ser4(n)[2], ser4(n)[3]) == n,
{
    assert(0 <= n / 1000 <= 9 && 0 <= (n / 100) % 10 <= 9 && 0 <= (n / 10) % 10 <= 9 && 0 <= n % 10
        <= 9) by (nonlinear_arith)
        requires
            0 <= n < 10000,
    ;
    assert(n / 1000 * 1000 + (n / 100) % 10 * 100 + (n / 10) % 10 * 10 + n % 10 == n)
        by (nonlinear_arith)
        requires
            0 <= n < 10000,
    ;
}

/// Appends the two zero-padded decimal digits of `n`.
pub fn push2(out: &mut Vec<u8>, n: u8)
    requires
        n < 100,
    ensures
        final(out)@ == old(out)@ + ser2(n as int),
{
    out.push(n / 10 + ('0' as u8));
    out.push(n % 10 + ('0' as u8));
    proof {
        lemma_ser2_rt(n as int);
        assert(out@ =~= old(out)@ + ser2(n as int));
    }
}

/// Appends the four zero-padded decimal digits of `n`.
pub fn push4(out: &mut Vec<u8>, n: u16)
    requires
        n < 10000,
    ensures
        final(out)@ == old(out)@ + ser4(n as int),
{
    out.push((n / 1000) as u8 + ('0' as u8));
    out.push((n / 100 % 10) as u8 + ('0' as u8));
    out.push((n / 10 % 10) as u8 + ('0' as u8));
    out.push((n % 10) as u8 + ('0' as u8));
    proof {
        lemma_ser4_rt(n as int);
        assert(out@ =~= old(out)@ + ser4(n as int));
    }
}


// ---------- month abbreviations ----------

/// The English three-letter month abbreviation used on the wire.
pub open spec fn month_abbrev(m: int) -> Seq<u8> {
    if m == 1 {
        seq!['J' as u8, 'a' as u8, 'n' as u8]
    } else if m == 2 {
        seq!['F' as u8, 'e' as u8, 'b' as u8]
    } else if m == 3 {
        seq!['M' as u8, 'a' as u8, 'r' as u8]
    } else if m == 4 {
        seq!['A' as u8, 'p' as u8, 'r' as u8]
    } else if m == 5 {
        seq!['M' as u8, 'a' as u8, 'y' as u8]
    } else if m == 6 {
        seq!['J' as u8, 'u' as u8, 'n' as u8]
    } else if m == 7 {
        seq!['J' as u8, 'u' as u8, 'l' as u8]
    } else if m == 8 {
        seq!['A' as u8, 'u' as u8, 'g' as u8]
    } else if m == 9 {
        seq!['S' as u8, 'e' as u8, 'p' as u8]
    } else if m == 10 {
        seq!['O' as u8, 'c' as u8, 't' as u8]
    } else if m == 11 {
        seq!['N' as u8, 'o' as u8, 'v' as u8]
    } else if m == 12 {
        seq!['D' as u8, 'e' as u8, 'c' as u8]
    } else {
        Seq::empty()
    }
}

/// Recognizes an English three-letter month abbreviation.
pub open spec fn spec_parse_month3(a: u8, b: u8, c: u8) -> Option<u8> {
    if a == ('J' as u8) && b == ('a' as u8) && c == ('n' as u8) {
        Some(1u8)
    } else if a == ('F' as u8) && b == ('e' as u8) && c == ('b' as u8) {
        Some(2u8)
    } else if a == ('M' as u8) && b == ('a' as u8) && c == ('r' as u8) {
        Some(3u8)
    } else if a == ('A' as u8) && b == ('p' as u8) && c == ('r' as u8) {
        Some(4u8)
    } else if a == ('M' as u8) && b == ('a' as u8) && c == ('y' as u8) {
        Some(5u8)
    } else if a == ('J' as u8) && b == ('u' as u8) && c == ('n' as u8) {
        Some(6u8)
    } else if a == ('J' as u8) && b == ('u' as u8) && c == ('l' as u8) {
        Some(7u8)
    } else if a == ('A' as u8) && b == ('u' as u8) && c == ('g' as u8) {
        Some(8u8)
    } else if a == ('S' as u8) && b == ('e' as u8) && c == ('p' as u8) {
        Some(9u8)
    } else if a == ('O' as u8) && b == ('c' as u8) && c == ('t' as u8) {
        Some(10u8)
    } else if a == ('N' as u8) && b == ('o' as u8) && c == ('v' as u8) {
        Some(11u8)
    } else if a == ('D' as u8) && b == ('e' as u8) && c == ('c' as u8) {
        Some(12u8)
    } else {
        None
    }
}

pub fn parse_month3(a: u8, b: u8, c: u8) -> (r: Option<u8>)
    ensures
        r == spec_parse_month3(a, b, c),
{
    if a == ('J' as u8) && b == ('a' as u8) && c == ('n' as u8) {
        Some(1u8)
    } else if a == ('F' as u8) && b == ('e' as u8) && c == ('b' as u8) {
        Some(2u8)
    } else if a == ('M' as u8) && b == ('a' as u8) && c == ('r' as u8) {
        Some(3u8)
    } else if a == ('A' as u8) && b == ('p' as u8) && c == ('r' as u8) {
        Some(4u8)
    } else if a == ('M' as u8) && b == ('a' as u8) && c == ('y' as u8) {
        Some(5u8)
    } else if a == ('J' as u8) && b == ('u' as u8) && c == ('n' as u8) {
        Some(6u8)
    } else if a == ('J' as u8) && b == ('u' as u8) && c == ('l' as u8) {
        Some(7u8)
    } else if a == ('A' as u8) && b == ('u' as u8) && c == ('g' as u8) {
        Some(8u8)
    } else if a == ('S' as u8) && b == ('e' as u8) && c == ('p' as u8) {
        Some(9u8)
    } else if a == ('O' as u8) && b == ('c' as u8) && c == ('t' as u8) {
        Some(10u8)
    } else if a == ('N' as u8) && b == ('o' as u8) && c == ('v' as u8) {
        Some(11u8)
    } else if a == ('D' as u8) && b == ('e' as u8) && c == ('c' as u8) {
        Some(12u8)
    } else {
        None
    }
}

pub proof fn lemma_month_rt(m: int)
    requires
        1 <= m <= 12,
    ensures
        month_abbrev(m).len() == 3,
        spec_parse_month3(month_abbrev(m)[0], month_abbrev(m)[1], month_abbrev(m)[2]) == Some(
            m as u8,
        ),
{
}

// ---------- wire date: DD-Mon-YYYY ----------

/// The wire spelling of a date: two-digit day, English month abbreviation,
/// four-digit year, separated by dashes.
pub open spec fn wire_date_bytes(d: Date) -> Seq<u8> {
    ser2(d.day as int) + seq![('-' as u8)] + month_abbrev(d.month as int) + seq![('-' as u8)]
        + ser4(d.year as int)
}

pub open spec fn spec_parse_wire_date(s: Seq<u8>) -> Option<Date> {
    if s.len() != 11 {
        None
    } else if s[2] != ('-' as u8) || s[6] != ('-' as u8) {
        None
    } else if !(is_digit(s[0]) && is_digit(s[1]) && is_digit(s[7]) && is_digit(s[8]) && is_digit(
        s[9],
    ) && is_digit(s[10])) {
        None
    } else {
        match spec_parse_month3(s[3], s[4], s[5]) {
            None => None,
            Some(m) => {
                let d = Date {
                    year: val4(s[7], s[8], s[9], s[10]) as u16,
                    month: m,
                    day: val2(s[0], s[1]) as u8,
                };
                if date_valid(d) {
                    Some(d)
                } else {
                    None
                }
            },
        }
    }
}

pub proof fn lemma_wire_date_rt(d: Date)
    requires
        date_valid(d),
    ensures
        wire_date_bytes(d).len() == 11,
        spec_parse_wire_date(wire_date_bytes(d)) == Some(d),
{
    lemma_ser2_rt(d.day as int);
    lemma_ser4_rt(d.year as int);
    lemma_month_rt(d.month as int);
    let s = wire_date_bytes(d);
    assert(s[0] == ser2(d.day as int)[0]);
    assert(s[1] == ser2(d.day as int)[1]);
    assert(s[2] == ('-' as u8));
    assert(s[3] == month_abbrev(d.month as int)[0]);
    assert(s[4] == month_abbrev(d.month as int)[1]);
    assert(s[5] == month_abbrev(d.month as int)[2]);
    assert(s[6] == ('-' as u8));
    assert(s[7] == ser4(d.year as int)[0]);
    assert(s[8] == ser4(d.year as int)[1]);
    assert(s[9] == ser4(d.year as int)[2]);
    assert(s[10] == ser4(d.year as int)[3]);
}

// ---------- ISO date: YYYY-MM-DD ----------

/// The spelling of a date used as a cache key: four-digit year, two-digit
/// month and day, separated by dashes.
pub open spec fn iso_date_bytes(d: Date) -> Seq<u8> {
    ser4(d.year as int) + seq![('-' as u8)] + ser2(d.month as int) + seq![('-' as u8)] + ser2(
        d.day as int,
    )
}

pub open spec fn spec_parse_iso_date(s: Seq<u8>) -> Option<Date> {
    if s.len() != 10 {
        None
    } else if s[4] != ('-' as u8) || s[7] != ('-' as u8) {
        None
    } else if !(is_digit(s[0]) && is_digit(s[1]) && is_digit(s[2]) && is_digit(s[3]) && is_digit(
        s[5],
    ) && is_digit(s[6]) && is_digit(s[8]) && is_digit(s[9])) {
        None
    } else {
        let d = Date {
            year: val4(s[0], s[1], s[2], s[3]) as u16,
            month: val2(s[5], s[6]) as u8,
            day: val2(s[8], s[9]) as u8,
        };
        if date_valid(d) {
            Some(d)
        } else {
            None
        }
    }
}

pub proof fn lemma_iso_date_rt(d: Date)
    requires
        date_valid(d),
    ensures
        iso_date_bytes(d).len() == 10,
        spec_parse_iso_date(iso_date_bytes(d)) == Some(d),
{
    lemma_ser2_rt(d.day as int);
    lemma_ser2_rt(d.month as int);
    lemma_ser4_rt(d.year as int);
    let s = iso_date_bytes(d);
    assert(s[0] == ser4(d.year as int)[0]);
    assert(s[1] == ser4(d.year as int)[1]);
    assert(s[2] == ser4(d.year as int)[2]);
    assert(s[3] == ser4(d.year as int)[3]);
    assert(s[4] == ('-' as u8));
    assert(s[5] == ser2(d.month as int)[0]);
    assert(s[6] == ser2(d.month as int)[1]);
    assert(s[7] == ('-' as u8));
    assert(s[8] == ser2(d.day as int)[0]);
    assert(s[9] == ser2(d.day as int)[1]);
}

// ---------- time of day: HH:MM:SS ----------

pub open spec fn time_bytes(t: TimeOfDay) -> Seq<u8> {
    ser2(t.hour as int) + seq![(':' as u8)] + ser2(t.minute as int) + seq![(':' as u8)] + ser2(
        t.second as int,
    )
}

pub open spec fn spec_parse_time(s: Seq<u8>) -> Option<TimeOfDay> {
    if s.len() != 8 {
        None
    } else if s[2] != (':' as u8) || s[5] != (':' as u8) {
        None
    } else if !(is_digit(s[0]) && is_digit(s[1]) && is_digit(s[3]) && is_digit(s[4]) && is_digit(
        s[6],
    ) && is_digit(s[7])) {
        None
    } else {
        let t = TimeOfDay {
            hour: val2(s[0], s[1]) as u8,
            minute: val2(s[3], s[4]) as u8,
            second: val2(s[6], s[7]) as u8,
        };
        if time_valid(t) {
            Some(t)
        } else {
            None
        }
    }
}

pub proof fn lemma_time_rt(t: TimeOfDay)
    requires
        time_valid(t),
    ensures
        time_bytes(t).len() == 8,
        spec_parse_time(time_bytes(t)) == Some(t),
{
    lemma_ser2_rt(t.hour as int);
    lemma_ser2_rt(t.minute as int);
    lemma_ser2_rt(t.second as int);
    let s = time_bytes(t);
    assert(s[0] == ser2(t.hour as int)[0]);
    assert(s[1] == ser2(t.hour as int)[1]);
    assert(s[2] == (':' as u8));
    assert(s[3] == ser2(t.minute as int)[0]);
    assert(s[4] == ser2(t.minute as int)[1]);
    assert(s[5] == (':' as u8));
    assert(s[6] == ser2(t.second as int)[0]);
    assert(s[7] == ser2(t.second as int)[1]);
}

// ---------- full timestamp: YYYY-MM-DDTHH:MM:SS ----------

pub open spec fn iso_dt_bytes(dt: DateTime) -> Seq<u8> {
    iso_date_bytes(dt.date) + seq![('T' as u8)] + time_bytes(dt.time)
}

pub open spec fn spec_parse_iso_dt(s: Seq<u8>) -> Option<DateTime> {
    if s.len() != 19 || s[10] != ('T' as u8) {
        None
    } else {
        match (spec_parse_iso_date(s.subrange(0, 10)), spec_parse_time(s.subrange(11, 19))) {
            (Some(d), Some(t)) => Some(DateTime { date: d, time: t }),
            _ => None,
        }
    }
}

pub proof fn lemma_iso_dt_rt(dt: DateTime)
    requires
        datetime_valid(dt),
    ensures
        iso_dt_bytes(dt).len() == 19,
        spec_parse_iso_dt(iso_dt_bytes(dt)) == Some(dt),
{
    lemma_iso_date_rt(dt.date);
    lemma_time_rt(dt.time);
    let s = iso_dt_bytes(dt);
    assert(s.subrange(0, 10) =~= iso_date_bytes(dt.date));
    assert(s.subrange(11, 19) =~= time_bytes(dt.time));
    assert(s[10] == ('T' as u8));
}

// ---------- exec encoders ----------

/// Appends a copy of `p` to `out`.
pub fn push_bytes(out: &mut Vec<u8>, p: &Vec<u8>)
    ensures
        final(out)@ == old(out)@ + p@,
{
    let mut i: usize = 0;
    while i < p.len()
        invariant
            i <= p.len(),
            out@ == old(out)@ + p@.subrange(0, i as int),
        decreases p.len() - i,
    {
        out.push(p[i]);
        i = i + 1;
        proof {
            assert(out@ =~= old(out)@ + p@.subrange(0, i as int));
        }
    }
    proof {
        assert(out@ =~= old(out)@ + p@);
    }
}

/// Appends the wire spelling `DD-Mon-YYYY` of a valid date.
pub fn push_wire_date(out: &mut Vec<u8>, d: Date)
    requires
        date_valid(d),
    ensures
        final(out)@ == old(out)@ + wire_date_bytes(d),
{
    push2(out, d.day);
    out.push('-' as u8);
    push_month_abbrev(out, d.month);
    out.push('-' as u8);
    push4(out, d.year);
    proof {
        assert(out@ =~= old(out)@ + wire_date_bytes(d));
    }
}

/// Appends the English month abbreviation.
pub fn push_month_abbrev(out: &mut Vec<u8>, m: u8)
    requires
        1 <= m <= 12,
    ensures
        final(out)@ == old(out)@ + month_abbrev(m as int),
{
    if m == 1 {
        out.push('J' as u8);
        out.push('a' as u8);
        out.push('n' as u8);
    } else if m == 2 {
        out.push('F' as u8);
        out.push('e' as u8);
        out.push('b' as u8);
    } else if m == 3 {
        out.push('M' as u8);
        out.push('a' as u8);
        out.push('r' as u8);
    } else if m == 4 {
        out.push('A' as u8);
        out.push('p' as u8);
        out.push('r' as u8);
    } else if m == 5 {
        out.push('M' as u8);
        out.push('a' as u8);
        out.push('y' as u8);
    } else if m == 6 {
        out.push('J' as u8);
        out.push('u' as u8);
        out.push('n' as u8);
    } else if m == 7 {
        out.push('J' as u8);
        out.push('u' as u8);
        out.push('l' as u8);
    } else if m == 8 {
        out.push('A' as u8);
        out.push('u' as u8);
        out.push('g' as u8);
    } else if m == 9 {
        out.push('S' as u8);
        out.push('e' as u8);
        out.push('p' as u8);
    } else if m == 10 {
        out.push('O' as u8);
        out.push('c' as u8);
        out.push('t' as u8);
    } else if m == 11 {
        out.push('N' as u8);
        out.push('o' as u8);
        out.push('v' as u8);
    } else {
        out.push('D' as u8);
        out.push('e' as u8);
        out.push('c' as u8);
    }
    proof {
        assert(out@ =~= old(out)@ + month_abbrev(m as int));
    }
}

/// Appends the ISO spelling `YYYY-MM-DD` of a valid date.
pub fn push_iso_date(out: &mut Vec<u8>, d: Date)
    requires
        date_valid(d),
    ensures
        final(out)@ == old(out)@ + iso_date_bytes(d),
{
    push4(out, d.year);
    out.push('-' as u8);
    push2(out, d.month);
    out.push('-' as u8);
    push2(out, d.day);
    proof {
        assert(out@ =~= old(out)@ + iso_date_bytes(d));
    }
}

/// Appends the `HH:MM:SS` spelling of a valid time of day.
pub fn push_time(out: &mut Vec<u8>, t: TimeOfDay)
    requires
        time_valid(t),
    ensures
        final(out)@ == old(out)@ + time_bytes(t),
{
    push2(out, t.hour);
    out.push(':' as u8);
    push2(out, t.minute);
    out.push(':' as u8);
    push2(out, t.second);
    proof {
        assert(out@ =~= old(out)@ + time_bytes(t));
    }
}

/// Appends the `YYYY-MM-DDTHH:MM:SS` spelling of a valid timestamp.
pub fn push_iso_dt(out: &mut Vec<u8>, dt: DateTime)
    requires
        datetime_valid(dt),
    ensures
        final(out)@ == old(out)@ + iso_dt_bytes(dt),
{
    push_iso_date(out, dt.date);
    out.push('T' as u8);
    push_time(out, dt.time);
    proof {
        assert(out@ =~= old(out)@ + iso_dt_bytes(dt));
    }
}

// ---------- exec readers ----------

/// Reads two decimal digits at `i`, if present.
pub fn read2(s: &Vec<u8>, i: usize) -> (r: Option<u8>)
    requires
        i + 2 <= s@.len(),
    ensures
        match r {
            Some(v) => is_digit(s@[i as int]) && is_digit(s@[i as int + 1]) && v == val2(
                s@[i as int],
                s@[i as int + 1],
            ),
            None => !(is_digit(s@[i as int]) && is_digit(s@[i as int + 1])),
        },
{
    let n: usize = s.len();
    assert(i + 2 <= n);
    let a = s[i];
    let b = s[i + 1];
    if ('0' as u8) <= a && a <= ('9' as u8) && ('0' as u8) <= b && b <= ('9' as u8) {
        Some((a - ('0' as u8)) * 10 + (b - ('0' as u8)))
    } else {
        None
    }
}

/// Reads four decimal digits at `i`, if present.
pub fn read4(s: &Vec<u8>, i: usize) -> (r: Option<u16>)
    requires
        i + 4 <= s@.len(),
    ensures
        match r {
            Some(v) => is_digit(s@[i as int]) && is_digit(s@[i as int + 1]) && is_digit(
                s@[i as int + 2],
            ) && is_digit(s@[i as int + 3]) && v == val4(
                s@[i as int],
                s@[i as int + 1],
                s@[i as int + 2],
                s@[i as int + 3],
            ),
            None => !(is_digit(s@[i as int]) && is_digit(s@[i as int + 1]) && is_digit(
                s@[i as int + 2],
            ) && is_digit(s@[i as int + 3])),
        },
{
    let n: usize = s.len();
    assert(i + 4 <= n);
    let a = s[i];
    let b = s[i + 1];
    let c = s[i + 2];
    let d = s[i + 3];
    if ('0' as u8) <= a && a <= ('9' as u8) && ('0' as u8) <= b && b <= ('9' as u8) && ('0' as u8)
        <= c && c <= ('9' as u8) && ('0' as u8) <= d && d <= ('9' as u8) {
        Some(
            ((a - ('0' as u8)) as u16) * 1000 + ((b - ('0' as u8)) as u16) * 100 + ((c - (
            '0' as u8)) as u16) * 10 + ((d - ('0' as u8)) as u16),
        )
    } else {
        None
    }
}

/// Reads a wire date `DD-Mon-YYYY` at `i`, if present.
pub fn read_wire_date(s: &Vec<u8>, i: usize) -> (r: Option<Date>)
    ensures
        i + 11 <= s@.len() ==> r == spec_parse_wire_date(s@.subrange(i as int, i as int + 11)),
        i + 11 > s@.len() ==> r is None,
{
    if i > s.len() || s.len() - i < 11 {
        return None;
    }
    let ghost sub = s@.subrange(i as int, i as int + 11);
    if s[i + 2] != ('-' as u8) || s[i + 6] != ('-' as u8) {
        return None;
    }
    let day = read2(s, i);
    let mon = parse_month3(s[i + 3], s[i + 4], s[i + 5]);
    let year = read4(s, i + 7);
    match (day, mon, year) {
        (Some(dd), Some(mm), Some(yy)) => {
            let d = Date { year: yy, month: mm, day: dd };
            if 1 <= mm && mm <= 12 && 1 <= dd && dd <= days_in_month_x(yy, mm) && yy <= 9999 {
                Some(d)
            } else {
                None
            }
        },
        _ => None,
    }
}

/// Reads an ISO date `YYYY-MM-DD` at `i`, if present.
pub fn read_iso_date(s: &Vec<u8>, i: usize) -> (r: Option<Date>)
    ensures
        i + 10 <= s@.len() ==> r == spec_parse_iso_date(s@.subrange(i as int, i as int + 10)),
        i + 10 > s@.len() ==> r is None,
{
    if i > s.len() || s.len() - i < 10 {
        return None;
    }
    if s[i + 4] != ('-' as u8) || s[i + 7] != ('-' as u8) {
        return None;
    }
    let year = read4(s, i);
    let month = read2(s, i + 5);
    let day = read2(s, i + 8);
    match (year, month, day) {
        (Some(yy), Some(mm), Some(dd)) => {
            if 1 <= mm && mm <= 12 && 1 <= dd && dd <= days_in_month_x(yy, mm) && yy <= 9999 {
                Some(Date { year: yy, month: mm, day: dd })
            } else {
                None
            }
        },
        _ => None,
    }
}

/// Reads a time of day `HH:MM:SS` at `i`, if present.
pub fn read_time(s: &Vec<u8>, i: usize) -> (r: Option<TimeOfDay>)
    ensures
        i + 8 <= s@.len() ==> r == spec_parse_time(s@.subrange(i as int, i as int + 8)),
        i + 8 > s@.len() ==> r is None,
{
    if i > s.len() || s.len() - i < 8 {
        return None;
    }
    if s[i + 2] != (':' as u8) || s[i + 5] != (':' as u8) {
        return None;
    }
    let hour = read2(s, i);
    let minute = read2(s, i + 3);
    let second = read2(s, i + 6);
    match (hour, minute, second) {
        (Some(hh), Some(mm), Some(ss)) => {
            if hh < 24 && mm < 60 && ss < 60 {
                Some(TimeOfDay { hour: hh, minute: mm, second: ss })
            } else {
                None
            }
        },
        _ => None,
    }
}

/// Reads a timestamp `YYYY-MM-DDTHH:MM:SS` at `i`, if present.
pub fn read_iso_dt(s: &Vec<u8>, i: usize) -> (r: Option<DateTime>)
    ensures
        i + 19 <= s@.len() ==> r == spec_parse_iso_dt(s@.subrange(i as int, i as int + 19)),
        i + 19 > s@.len() ==> r is None,
{
    if i > s.len() || s.len() - i < 19 {
        return None;
    }
    if s[i + 10] != ('T' as u8) {
        return None;
    }
    let d = read_iso_date(s, i);
    let t = read_time(s, i + 11);
    proof {
        assert(s@.subrange(i as int, i as int + 19).subrange(0, 10) =~= s@.subrange(
            i as int,
            i as int + 10,
        ));
        assert(s@.subrange(i as int, i as int + 19).subrange(11, 19) =~= s@.subrange(
            i as int + 11,
            i as int + 19,
        ));
    }
    match (d, t) {
        (Some(dd), Some(tt)) => Some(DateTime { date: dd, time: tt }),
        _ => None,
    }
}

// ---------- weekday ----------

/// The day of the week of a date, as an index: 0 is Saturday, 1 is Sunday,
/// and so on through 6, Friday. Computed by Zeller's congruence, on a year
/// shifted by one whole 400-year cycle (146097 days, a multiple of seven)
/// so every intermediate value stays positive.
pub open spec fn weekday_index(d: Date) -> int {
    let m: int = if d.month <= 2 {
        d.month + 12
    } else {
        d.month as int
    };
    let y: int = if d.month <= 2 {
        d.year + 399
    } else {
        d.year + 400
    };
    let k = y % 100;
    let j = y / 100;
    (d.day + (13 * (m + 1)) / 5 + k + k / 4 + j / 4 + 5 * j) % 7
}

/// The English name of a weekday index.
pub open spec fn weekday_name(w: int) -> Seq<u8> {
    if w == 0 {
        "Saturday".spec_bytes()
    } else if w == 1 {
        "Sunday".spec_bytes()
    } else if w == 2 {
        "Monday".spec_bytes()
    } else if w == 3 {
        "Tuesday".spec_bytes()
    } else if w == 4 {
        "Wednesday".spec_bytes()
    } else if w == 5 {
        "Thursday".spec_bytes()
    } else if w == 6 {
        "Friday".spec_bytes()
    } else {
        Seq::empty()
    }
}

/// The English weekday name of a valid date.
pub fn weekday_name_bytes(d: Date) -> (r: Vec<u8>)
    requires
        date_valid(d),
    ensures
        r@ == weekday_name(weekday_index(d)),
{
    let m: u32 = if d.month <= 2 {
        d.month as u32 + 12
    } else {
        d.month as u32
    };
    let y: u32 = if d.month <= 2 {
        d.year as u32 + 399
    } else {
        d.year as u32 + 400
    };
    let k: u32 = y % 100;
    let j: u32 = y / 100;
    let w: u32 = (d.day as u32 + (13 * (m + 1)) / 5 + k + k / 4 + j / 4 + 5 * j) % 7;
    assert(w == weekday_index(d));
    if w == 0 {
        "Saturday".as_bytes_vec()
    } else if w == 1 {
        "Sunday".as_bytes_vec()
    } else if w == 2 {
        "Monday".as_bytes_vec()
    } else if w == 3 {
        "Tuesday".as_bytes_vec()
    } else if w == 4 {
        "Wednesday".as_bytes_vec()
    } else if w == 5 {
        "Thursday".as_bytes_vec()
    } else {
        "Friday".as_bytes_vec()
    }
}

} // verus!
