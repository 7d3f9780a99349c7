use vstd::prelude::*;

use crate::dates::{
    Date, DateTime, date_valid, is_digit, lemma_month_rt, lemma_ser2_rt, lemma_ser4_rt,
    lemma_wire_date_rt, month_abbrev, push_bytes, push_time, push_wire_date, read_time,
    read_wire_date, ser2, ser4, spec_parse_time, spec_parse_wire_date, time_bytes, time_valid,
    wire_date_bytes,
};
use crate::Error;

verus! {

// Four month abbreviations arrive from the wire in the local spelling and
// collide with the English three-letter forms; they are rewritten before the
// date is parsed. Every other month, including the historically misspelled
// "Mac" for March, is passed through as literal text.
pub open spec fn tok_mei() -> Seq<u8> {
    seq!['M' as u8, 'e' as u8, 'i' as u8]
}

pub open spec fn tok_ogos() -> Seq<u8> {
    seq!['O' as u8, 'g' as u8, 'o' as u8, 's' as u8]
}

pub open spec fn tok_okt() -> Seq<u8> {
    seq!['O' as u8, 'k' as u8, 't' as u8]
}

pub open spec fn tok_dis() -> Seq<u8> {
    seq!['D' as u8, 'i' as u8, 's' as u8]
}

pub open spec fn eng_may() -> Seq<u8> {
    seq!['M' as u8, 'a' as u8, 'y' as u8]
}

pub open spec fn eng_aug() -> Seq<u8> {
    seq!['A' as u8, 'u' as u8, 'g' as u8]
}

pub open spec fn eng_oct() -> Seq<u8> {
    seq!['O' as u8, 'c' as u8, 't' as u8]
}

pub open spec fn eng_dec() -> Seq<u8> {
    seq!['D' as u8, 'e' as u8, 'c' as u8]
}

/// `pat` occurs in `s` starting at position `i`.
pub open spec fn match_at(s: Seq<u8>, pat: Seq<u8>, i: int) -> bool {
    0 <= i && i + pat.len() <= s.len() && s.subrange(i, i + pat.len() as int) == pat
}

/// `pat` occurs somewhere in `s`.
pub open spec fn contains_tok(s: Seq<u8>, pat: Seq<u8>) -> bool {
    exists|i: int| match_at(s, pat, i)
}

/// Replaces every non-overlapping occurrence of `pat` from position `i`
/// onward by `rep`, scanning left to right.
pub open spec fn replace_from(s: Seq<u8>, pat: Seq<u8>, rep: Seq<u8>, i: int) -> Seq<u8>
    recommends
        0 <= i <= s.len(),
        1 <= pat.len(),
    decreases s.len() - i,
    when 0 <= i <= s.len() && 1 <= pat.len()
{
    if i + pat.len() > s.len() {
        s.subrange(i, s.len() as int)
    } else if s.subrange(i, i + pat.len() as int) == pat {
        rep + replace_from(s, pat, rep, i + pat.len() as int)
    } else {
        seq![s[i]] + replace_from(s, pat, rep, i + 1)
    }
}

pub open spec fn replace_all(s: Seq<u8>, pat: Seq<u8>, rep: Seq<u8>) -> Seq<u8> {
    replace_from(s, pat, rep, 0)
}

/// The locale pass over a raw date string: the first of the four local
/// tokens found as a substring has all its occurrences replaced by the
/// English spelling; a string containing none is passed through unchanged.
pub open spec fn convert_my_to_en(s: Seq<u8>) -> Seq<u8> {
    if contains_tok(s, tok_mei()) {
        replace_all(s, tok_mei(), eng_may())
    } else if contains_tok(s, tok_ogos()) {
        replace_all(s, tok_ogos(), eng_aug())
    } else if contains_tok(s, tok_okt()) {
        replace_all(s, tok_okt(), eng_oct())
    } else if contains_tok(s, tok_dis()) {
        replace_all(s, tok_dis(), eng_dec())
    } else {
        s
    }
}

/// A raw date decodes by the locale pass followed by the strict
/// `DD-Mon-YYYY` parse.
pub open spec fn spec_decode_date(s: Seq<u8>) -> Option<Date> {
    spec_parse_wire_date(convert_my_to_en(s))
}

// ---------- exec substring search and replace ----------

fn match_at_x(s: &Vec<u8>, pat: &Vec<u8>, i: usize) -> (r: bool)
    requires
        i + pat@.len() <= s@.len(),
    ensures
        r == match_at(s@, pat@, i as int),
{
    let n: usize = s.len();
    let m: usize = pat.len();
    let mut j: usize = 0;
    while j < m
        invariant
            j <= m,
            i + m <= n,
            n == s@.len(),
            m == pat@.len(),
            forall|k: int| 0 <= k < j ==> s@[i + k] == pat@[k],
        decreases m - j,
    {
        if s[i + j] != pat[j] {
            proof {
                assert(s@.subrange(i as int, i as int + pat@.len() as int)[j as int] != pat@[j as int]);
            }
            return false;
        }
        j = j + 1;
    }
    proof {
        assert(s@.subrange(i as int, i as int + pat@.len() as int) =~= pat@);
    }
    true
}

fn find_tok(s: &Vec<u8>, pat: &Vec<u8>) -> (r: bool)
    requires
        1 <= pat@.len(),
    ensures
        r == contains_tok(s@, pat@),
{
    let n: usize = s.len();
    let m: usize = pat.len();
    if m > n {
        proof {
            assert(forall|i: int| !match_at(s@, pat@, i));
        }
        return false;
    }
    let mut i: usize = 0;
    while i <= n - m
        invariant
            1 <= m <= n,
            n == s@.len(),
            m == pat@.len(),
            i <= n - m + 1,
            forall|k: int| 0 <= k < i ==> !match_at(s@, pat@, k),
        decreases n - i,
    {
        if match_at_x(s, pat, i) {
            proof {
                assert(match_at(s@, pat@, i as int));
            }
            return true;
        }
        i = i + 1;
    }
    proof {
        assert(forall|k: int| #![auto] 0 <= k <= n - m ==> !match_at(s@, pat@, k));
        assert(forall|k: int| !match_at(s@, pat@, k));
    }
    false
}

fn replace_all_x(s: &Vec<u8>, pat: &Vec<u8>, rep: &Vec<u8>) -> (r: Vec<u8>)
    requires
        1 <= pat@.len(),
    ensures
        r@ == replace_all(s@, pat@, rep@),
{
    let n: usize = s.len();
    let m: usize = pat.len();
    let mut out: Vec<u8> = Vec::new();
    let mut i: usize = 0;
    if m <= n {
        while i <= n - m
            invariant
                1 <= m <= n,
                i <= n,
                n == s@.len(),
                m == pat@.len(),
                replace_all(s@, pat@, rep@) == out@ + replace_from(s@, pat@, rep@, i as int),
            decreases n - i,
        {
            if match_at_x(s, pat, i) {
                push_bytes(&mut out, rep);
                i = i + m;
            } else {
                out.push(s[i]);
                i = i + 1;
            }
            proof {
                assert(replace_all(s@, pat@, rep@) == out@ + replace_from(s@, pat@, rep@, i as int));
            }
        }
    }
    while i < n
        invariant
            i <= n,
            n == s@.len(),
            i + m > n,
            m == pat@.len(),
            1 <= m,
            replace_all(s@, pat@, rep@) == out@ + replace_from(s@, pat@, rep@, i as int),
        decreases n - i,
    {
        out.push(s[i]);
        i = i + 1;
        proof {
            assert(s@.subrange(i - 1, n as int) =~= seq![s@[i - 1]] + s@.subrange(i as int, n as int));
        }
    }
    proof {
        assert(replace_from(s@, pat@, rep@, n as int) =~= Seq::<u8>::empty());
        assert(out@ =~= out@ + Seq::<u8>::empty());
    }
    out
}

// ---------- the four token constants, as vectors ----------

fn tok_mei_x() -> (r: Vec<u8>)
    ensures
        r@ == tok_mei(),
{
    let mut v: Vec<u8> = Vec::new();
    v.push('M' as u8);
    v.push('e' as u8);
    v.push('i' as u8);
    proof {
        assert(v@ =~= tok_mei());
    }
    v
}

fn tok_ogos_x() -> (r: Vec<u8>)
    ensures
        r@ == tok_ogos(),
{
    let mut v: Vec<u8> = Vec::new();
    v.push('O' as u8);
    v.push('g' as u8);
    v.push('o' as u8);
    v.push('s' as u8);
    proof {
        assert(v@ =~= tok_ogos());
    }
    v
}

fn tok_okt_x() -> (r: Vec<u8>)
    ensures
        r@ == tok_okt(),
{
    let mut v: Vec<u8> = Vec::new();
    v.push('O' as u8);
    v.push('k' as u8);
    v.push('t' as u8);
    proof {
        assert(v@ =~= tok_okt());
    }
    v
}

fn tok_dis_x() -> (r: Vec<u8>)
    ensures
        r@ == tok_dis(),
{
    let mut v: Vec<u8> = Vec::new();
    v.push('D' as u8);
    v.push('i' as u8);
    v.push('s' as u8);
    proof {
        assert(v@ =~= tok_dis());
    }
    v
}

fn eng_may_x() -> (r: Vec<u8>)
    ensures
        r@ == eng_may(),
{
    let mut v: Vec<u8> = Vec::new();
    v.push('M' as u8);
    v.push('a' as u8);
    v.push('y' as u8);
    proof {
        assert(v@ =~= eng_may());
    }
    v
}

fn eng_aug_x() -> (r: Vec<u8>)
    ensures
        r@ == eng_aug(),
{
    let mut v: Vec<u8> = Vec::new();
    v.push('A' as u8);
    v.push('u' as u8);
    v.push('g' as u8);
    proof {
        assert(v@ =~= eng_aug());
    }
    v
}

fn eng_oct_x() -> (r: Vec<u8>)
    ensures
        r@ == eng_oct(),
{
    let mut v: Vec<u8> = Vec::new();
    v.push('O' as u8);
    v.push('c' as u8);
    v.push('t' as u8);
    proof {
        assert(v@ =~= eng_oct());
    }
    v
}

fn eng_dec_x() -> (r: Vec<u8>)
    ensures
        r@ == eng_dec(),
{
    let mut v: Vec<u8> = Vec::new();
    v.push('D' as u8);
    v.push('e' as u8);
    v.push('c' as u8);
    proof {
        assert(v@ =~= eng_dec());
    }
    v
}

/// The locale pass over a raw date string: rewrites the first local month
/// token found to its English spelling, and otherwise copies the input.
pub fn convert_my_to_en_date(s: &Vec<u8>) -> (r: Vec<u8>)
    ensures
        r@ == convert_my_to_en(s@),
{
    let mei = tok_mei_x();
    let ogos = tok_ogos_x();
    let okt = tok_okt_x();
    let dis = tok_dis_x();
    if find_tok(s, &mei) {
        replace_all_x(s, &mei, &eng_may_x())
    } else if find_tok(s, &ogos) {
        replace_all_x(s, &ogos, &eng_aug_x())
    } else if find_tok(s, &okt) {
        replace_all_x(s, &okt, &eng_oct_x())
    } else if find_tok(s, &dis) {
        replace_all_x(s, &dis, &eng_dec_x())
    } else {
        let mut out: Vec<u8> = Vec::new();
        push_bytes(&mut out, s);
        proof {
            assert(out@ =~= s@);
        }
        out
    }
}

/// Decodes a wire date string: the locale pass, then the strict
/// `DD-Mon-YYYY` parse. Returns `DecodeFailure` exactly when the rewritten
/// string is not a valid date in that form.
pub fn decode_date(s: &Vec<u8>) -> (r: Result<Date, Error>)
    ensures
        match spec_decode_date(s@) {
            Some(d) => r == Ok::<Date, Error>(d),
            None => r == Err::<Date, Error>(Error::DecodeFailure),
        },
{
    let conv = convert_my_to_en_date(s);
    if conv.len() != 11 {
        return Err(Error::DecodeFailure);
    }
    proof {
        assert(conv@.subrange(0, 11) =~= conv@);
    }
    match read_wire_date(&conv, 0) {
        Some(d) => Ok(d),
        None => Err(Error::DecodeFailure),
    }
}

/// Encodes a date in the wire form `DD-Mon-YYYY`, always with the English
/// month abbreviation.
pub fn encode_date(d: Date) -> (r: Vec<u8>)
    requires
        date_valid(d),
    ensures
        r@ == wire_date_bytes(d),
{
    let mut out: Vec<u8> = Vec::new();
    push_wire_date(&mut out, d);
    proof {
        assert(out@ =~= wire_date_bytes(d));
    }
    out
}

/// Decodes a bare `HH:MM:SS` string into a timestamp anchored to the given
/// calendar date (the caller passes the current local date, reproducing the
/// source behaviour of binding wire times to the day of decoding).
pub fn decode_time_with_date(s: &Vec<u8>, today: Date) -> (r: Result<DateTime, Error>)
    requires
        date_valid(today),
    ensures
        match spec_parse_time(s@) {
            Some(t) => r == Ok::<DateTime, Error>(DateTime { date: today, time: t }),
            None => r == Err::<DateTime, Error>(Error::DecodeFailure),
        },
{
    if s.len() != 8 {
        return Err(Error::DecodeFailure);
    }
    proof {
        assert(s@.subrange(0, 8) =~= s@);
    }
    match read_time(s, 0) {
        Some(t) => Ok(DateTime { date: today, time: t }),
        None => Err(Error::DecodeFailure),
    }
}

/// Encodes only the `HH:MM:SS` portion of a timestamp, discarding the
/// embedded date.
pub fn encode_time_of_day(dt: DateTime) -> (r: Vec<u8>)
    requires
        time_valid(dt.time),
    ensures
        r@ == time_bytes(dt.time),
{
    let mut out: Vec<u8> = Vec::new();
    push_time(&mut out, dt.time);
    proof {
        assert(out@ =~= time_bytes(dt.time));
    }
    out
}


// ---------- laws of the locale pass ----------

/// Past the last possible match, the replacement pass copies the tail.
proof fn lemma_replace_tail_nomatch(s: Seq<u8>, pat: Seq<u8>, rep: Seq<u8>, i: int)
    requires
        1 <= pat.len(),
        0 <= i <= s.len(),
        forall|j: int| i <= j ==> !match_at(s, pat, j),
    ensures
        replace_from(s, pat, rep, i) == s.subrange(i, s.len() as int),
    decreases s.len() - i,
{
    if i + pat.len() > s.len() {
    } else {
        assert(!match_at(s, pat, i));
        lemma_replace_tail_nomatch(s, pat, rep, i + 1);
        assert(replace_from(s, pat, rep, i) =~= s.subrange(i, s.len() as int));
    }
}

/// A pattern that occurs exactly once is replaced exactly there.
proof fn lemma_replace_single_from(s: Seq<u8>, pat: Seq<u8>, rep: Seq<u8>, i: int, i0: int)
    requires
        1 <= pat.len(),
        0 <= i <= i0,
        match_at(s, pat, i0),
        forall|j: int| i <= j < i0 ==> !match_at(s, pat, j),
        forall|j: int| i0 + pat.len() <= j ==> !match_at(s, pat, j),
    ensures
        replace_from(s, pat, rep, i) == s.subrange(i, i0) + rep + s.subrange(
            i0 + pat.len() as int,
            s.len() as int,
        ),
    decreases i0 - i,
{
    if i == i0 {
        lemma_replace_tail_nomatch(s, pat, rep, i0 + pat.len() as int);
        assert(replace_from(s, pat, rep, i) =~= s.subrange(i, i0) + rep + s.subrange(
            i0 + pat.len() as int,
            s.len() as int,
        ));
    } else {
        assert(!match_at(s, pat, i));
        lemma_replace_single_from(s, pat, rep, i + 1, i0);
        assert(replace_from(s, pat, rep, i) =~= s.subrange(i, i0) + rep + s.subrange(
            i0 + pat.len() as int,
            s.len() as int,
        ));
    }
}

/// A pattern that occurs exactly once in `s`, at `i0`, is replaced there
/// and nowhere else.
proof fn lemma_replace_single(s: Seq<u8>, pat: Seq<u8>, rep: Seq<u8>, i0: int)
    requires
        1 <= pat.len(),
        match_at(s, pat, i0),
        forall|j: int| j != i0 ==> !match_at(s, pat, j),
    ensures
        replace_all(s, pat, rep) == s.subrange(0, i0) + rep + s.subrange(
            i0 + pat.len() as int,
            s.len() as int,
        ),
{
    lemma_replace_single_from(s, pat, rep, 0, i0);
}

/// No three-letter token with an upper-case first letter and lower-case
/// rest matches anywhere in a well-formed wire date, except possibly in the
/// month slot, which the premise rules out.
proof fn lemma_wire_shape_no_tok3(s: Seq<u8>, tok: Seq<u8>)
    requires
        s.len() == 11,
        tok.len() == 3,
        is_digit(s[0]) && is_digit(s[1]) && is_digit(s[7]) && is_digit(s[8]) && is_digit(s[9])
            && is_digit(s[10]),
        s[2] == ('-' as u8) && s[6] == ('-' as u8),
        ('A' as u8) <= tok[0] <= ('Z' as u8),
        ('a' as u8) <= tok[1] <= ('z' as u8),
        ('a' as u8) <= tok[2] <= ('z' as u8),
        !(s[3] == tok[0] && s[4] == tok[1] && s[5] == tok[2]),
    ensures
        !contains_tok(s, tok),
{
    assert forall|i: int| !match_at(s, tok, i) by {
        if match_at(s, tok, i) {
            assert(0 <= i <= 8);
            assert(s.subrange(i, i + 3)[0] == tok[0]);
            assert(s.subrange(i, i + 3)[1] == tok[1]);
            assert(s.subrange(i, i + 3)[2] == tok[2]);
            assert(s[i] == tok[0] && s[i + 1] == tok[1] && s[i + 2] == tok[2]);
        }
    }
}

/// No four-letter token with an upper-case first letter and lower-case rest
/// matches anywhere in a well-formed wire date: the month slot is only three
/// letters wide.
proof fn lemma_wire_shape_no_tok4(s: Seq<u8>, tok: Seq<u8>)
    requires
        s.len() == 11,
        tok.len() == 4,
        is_digit(s[0]) && is_digit(s[1]) && is_digit(s[7]) && is_digit(s[8]) && is_digit(s[9])
            && is_digit(s[10]),
        s[2] == ('-' as u8) && s[6] == ('-' as u8),
        ('A' as u8) <= tok[0] <= ('Z' as u8),
        ('a' as u8) <= tok[1] <= ('z' as u8),
        ('a' as u8) <= tok[2] <= ('z' as u8),
        ('a' as u8) <= tok[3] <= ('z' as u8),
    ensures
        !contains_tok(s, tok),
{
    assert forall|i: int| !match_at(s, tok, i) by {
        if match_at(s, tok, i) {
            assert(0 <= i <= 7);
            assert(s.subrange(i, i + 4)[0] == tok[0]);
            assert(s.subrange(i, i + 4)[1] == tok[1]);
            assert(s.subrange(i, i + 4)[2] == tok[2]);
            assert(s.subrange(i, i + 4)[3] == tok[3]);
            assert(s[i] == tok[0] && s[i + 1] == tok[1] && s[i + 2] == tok[2] && s[i + 3] == tok[3]);
        }
    }
}

/// The locale pass leaves an English-spelled wire date unchanged.
proof fn lemma_convert_fixes_english(d: Date)
    requires
        date_valid(d),
    ensures
        convert_my_to_en(wire_date_bytes(d)) == wire_date_bytes(d),
{
    lemma_ser2_rt(d.day as int);
    lemma_ser4_rt(d.year as int);
    lemma_month_rt(d.month as int);
    let s = wire_date_bytes(d);
    let a = month_abbrev(d.month as int);
    assert(s.len() == 11);
    assert(s[0] == ser2(d.day as int)[0] && s[1] == ser2(d.day as int)[1]);
    assert(s[2] == ('-' as u8) && s[6] == ('-' as u8));
    assert(s[3] == a[0] && s[4] == a[1] && s[5] == a[2]);
    assert(s[7] == ser4(d.year as int)[0] && s[8] == ser4(d.year as int)[1] && s[9] == ser4(
        d.year as int,
    )[2] && s[10] == ser4(d.year as int)[3]);
    assert(!(a[0] == ('M' as u8) && a[1] == ('e' as u8) && a[2] == ('i' as u8)));
    assert(!(a[0] == ('O' as u8) && a[1] == ('k' as u8) && a[2] == ('t' as u8)));
    assert(!(a[0] == ('D' as u8) && a[1] == ('i' as u8) && a[2] == ('s' as u8)));
    lemma_wire_shape_no_tok3(s, tok_mei());
    lemma_wire_shape_no_tok4(s, tok_ogos());
    lemma_wire_shape_no_tok3(s, tok_okt());
    lemma_wire_shape_no_tok3(s, tok_dis());
}

/// Decoding an encoded date gives back the date itself, so decode followed
/// by encode reproduces the encoded string exactly. The round trip holds
/// for the English spelling that `encode_date` emits; a locale-spelled
/// input re-encodes to the English spelling instead.
pub proof fn lemma_date_round_trip(d: Date)
    requires
        date_valid(d),
    ensures
        spec_decode_date(wire_date_bytes(d)) == Some(d),
        wire_date_bytes(spec_decode_date(wire_date_bytes(d))->Some_0) == wire_date_bytes(d),
{
    lemma_convert_fixes_english(d);
    lemma_wire_date_rt(d);
}

/// The local spelling of the month slot for the four rewritten months.
pub open spec fn locale_abbrev(m: int) -> Seq<u8> {
    if m == 5 {
        tok_mei()
    } else if m == 8 {
        tok_ogos()
    } else if m == 10 {
        tok_okt()
    } else if m == 12 {
        tok_dis()
    } else {
        month_abbrev(m)
    }
}

/// A wire date spelled with the local month token.
pub open spec fn wire_date_locale_bytes(d: Date) -> Seq<u8> {
    ser2(d.day as int) + seq![('-' as u8)] + locale_abbrev(d.month as int) + seq![('-' as u8)]
        + ser4(d.year as int)
}

/// For each of the four local month tokens, a wire date spelled with the
/// token decodes to the same calendar date as the same string with the
/// token replaced by its English equivalent.
#[verifier::rlimit(100)]
#[verifier::spinoff_prover]
pub proof fn lemma_locale_decodes_like_english(d: Date)
    requires
        date_valid(d),
        d.month == 5 || d.month == 8 || d.month == 10 || d.month == 12,
    ensures
        spec_decode_date(wire_date_locale_bytes(d)) == spec_decode_date(wire_date_bytes(d)),
        spec_decode_date(wire_date_locale_bytes(d)) == Some(d),
{
    lemma_ser2_rt(d.day as int);
    lemma_ser4_rt(d.year as int);
    lemma_month_rt(d.month as int);
    lemma_date_round_trip(d);
    let s = wire_date_locale_bytes(d);
    let t = locale_abbrev(d.month as int);
    let n = s.len() as int;
    assert(n == 8 + t.len());
    assert(s[0] == ser2(d.day as int)[0] && s[1] == ser2(d.day as int)[1]);
    assert(s[2] == ('-' as u8));
    assert forall|k: int| 0 <= k < t.len() implies s[3 + k] == t[k] by {}
    assert(s[3 + t.len() as int] == ('-' as u8));
    assert forall|k: int| 0 <= k < 4 implies s[4 + t.len() as int + k] == ser4(d.year as int)[k] by {}
    // the token occurs at the month slot and nowhere else
    assert(s.subrange(3, 3 + t.len() as int) =~= t);
    assert(match_at(s, t, 3));
    assert forall|j: int| j != 3 implies !match_at(s, t, j) by {
        if j != 3 && match_at(s, t, j) {
            assert(0 <= j && j + t.len() <= n);
            assert(s.subrange(j, j + t.len() as int)[0] == t[0]);
            assert(s[j] == t[0]);
            if j < 3 {
                assert(is_digit(s[0]) && is_digit(s[1]));
            } else {
                // positions after the month slot are a dash or digits
                assert(s[j] == t[0]);
            }
        }
    }
    // replacing the single occurrence yields the English-spelled wire date
    let rep = if d.month == 5 {
        eng_may()
    } else if d.month == 8 {
        eng_aug()
    } else if d.month == 10 {
        eng_oct()
    } else {
        eng_dec()
    };
    lemma_replace_single(s, t, rep, 3);
    assert(replace_all(s, t, rep) =~= wire_date_bytes(d));
    // the earlier tokens in the scan order do not occur
    if d.month == 5 {
        assert(contains_tok(s, tok_mei()));
        assert(convert_my_to_en(s) == replace_all(s, tok_mei(), eng_may()));
    } else if d.month == 8 {
        assert forall|j: int| !match_at(s, tok_mei(), j) by {
            if match_at(s, tok_mei(), j) {
                assert(s.subrange(j, j + 3)[0] == ('M' as u8));
                assert(s[j] == ('M' as u8));
            }
        }
        assert(!contains_tok(s, tok_mei()));
        assert(contains_tok(s, tok_ogos()));
        assert(convert_my_to_en(s) == replace_all(s, tok_ogos(), eng_aug()));
    } else if d.month == 10 {
        assert forall|j: int| !match_at(s, tok_mei(), j) by {
            if match_at(s, tok_mei(), j) {
                assert(s.subrange(j, j + 3)[0] == ('M' as u8));
                assert(s[j] == ('M' as u8));
            }
        }
        assert forall|j: int| !match_at(s, tok_ogos(), j) by {
            if match_at(s, tok_ogos(), j) {
                assert(s.subrange(j, j + 4)[0] == ('O' as u8));
                assert(s.subrange(j, j + 4)[1] == ('g' as u8));
                assert(s[j] == ('O' as u8) && s[j + 1] == ('g' as u8));
            }
        }
        assert(!contains_tok(s, tok_mei()));
        assert(!contains_tok(s, tok_ogos()));
        assert(contains_tok(s, tok_okt()));
        assert(convert_my_to_en(s) == replace_all(s, tok_okt(), eng_oct()));
    } else {
        assert forall|j: int| !match_at(s, tok_mei(), j) by {
            if match_at(s, tok_mei(), j) {
                assert(s.subrange(j, j + 3)[0] == ('M' as u8));
                assert(s[j] == ('M' as u8));
            }
        }
        assert forall|j: int| !match_at(s, tok_ogos(), j) by {
            if match_at(s, tok_ogos(), j) {
                assert(s.subrange(j, j + 4)[0] == ('O' as u8));
                assert(s[j] == ('O' as u8));
            }
        }
        assert forall|j: int| !match_at(s, tok_okt(), j) by {
            if match_at(s, tok_okt(), j) {
                assert(s.subrange(j, j + 3)[0] == ('O' as u8));
                assert(s[j] == ('O' as u8));
            }
        }
        assert(!contains_tok(s, tok_mei()));
        assert(!contains_tok(s, tok_ogos()));
        assert(!contains_tok(s, tok_okt()));
        assert(contains_tok(s, tok_dis()));
        assert(convert_my_to_en(s) == replace_all(s, tok_dis(), eng_dec()));
    }
}

/// Decoding the same bare time string against the same calendar day gives
/// equal timestamps; against different days it gives the same time of day
/// with differing embedded dates. The divergence across days is part of the
/// source behaviour and is preserved, not repaired.
pub proof fn lemma_time_decode_binds_day(s: Seq<u8>, d1: Date, d2: Date)
    ensures
        match spec_parse_time(s) {
            Some(t) => {
                let r1 = DateTime { date: d1, time: t };
                let r2 = DateTime { date: d2, time: t };
                r1.time == r2.time && (r1 == r2 <==> d1 == d2)
            },
            None => true,
        },
{
}


/// Decodes a bare `HH:MM:SS` string into a timestamp anchored to the
/// current local calendar date at the moment of decoding. Two calls on
/// different calendar days therefore differ in the embedded date; only the
/// time-of-day component is pinned here.
pub fn decode_time_of_day(s: &Vec<u8>) -> (r: Result<DateTime, Error>)
    ensures
        match spec_parse_time(s@) {
            Some(t) => r is Ok && r->Ok_0.time == t && date_valid(r->Ok_0.date),
            None => r is Err && r->Err_0 == Error::DecodeFailure,
        },
{
    let today = crate::outside::local_today();
    decode_time_with_date(s, today)
}

} // verus!
