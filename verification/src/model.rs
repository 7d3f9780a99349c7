use vstd::prelude::*;

use crate::dates::{Date, DateTime, date_valid, datetime_valid, spec_parse_time, time_valid};
use crate::locale::{decode_date, decode_time_with_date, spec_decode_date};
use crate::Error;

verus! {

/// One day's schedule exactly as it crosses the wire: nine raw byte strings,
/// not yet checked or typed.
pub struct RawPrayerTime {
    pub hijri: Vec<u8>,
    pub date: Vec<u8>,
    pub imsak: Vec<u8>,
    pub fajr: Vec<u8>,
    pub syuruk: Vec<u8>,
    pub dhuhr: Vec<u8>,
    pub asr: Vec<u8>,
    pub maghrib: Vec<u8>,
    pub isha: Vec<u8>,
}

/// The mathematical value of a raw entry: nine byte strings.
pub ghost struct RawPrayerTimeV {
    pub hijri: Seq<u8>,
    pub date: Seq<u8>,
    pub imsak: Seq<u8>,
    pub fajr: Seq<u8>,
    pub syuruk: Seq<u8>,
    pub dhuhr: Seq<u8>,
    pub asr: Seq<u8>,
    pub maghrib: Seq<u8>,
    pub isha: Seq<u8>,
}

impl View for RawPrayerTime {
    type V = RawPrayerTimeV;

    open spec fn view(&self) -> RawPrayerTimeV {
        RawPrayerTimeV {
            hijri: self.hijri@,
            date: self.date@,
            imsak: self.imsak@,
            fajr: self.fajr@,
            syuruk: self.syuruk@,
            dhuhr: self.dhuhr@,
            asr: self.asr@,
            maghrib: self.maghrib@,
            isha: self.isha@,
        }
    }
}

/// The whole response envelope in raw form: the schedule array plus the
/// passthrough metadata fields.
pub struct RawPayload {
    pub prayer_time: Vec<RawPrayerTime>,
    pub status: Vec<u8>,
    pub server_time: Vec<u8>,
    pub period_type: Vec<u8>,
    pub lang: Vec<u8>,
    pub zone: Vec<u8>,
}

pub open spec fn rpts_view(s: Seq<RawPrayerTime>) -> Seq<RawPrayerTimeV> {
    s.map_values(|r: RawPrayerTime| r@)
}

/// The mathematical value of a raw response envelope.
pub ghost struct RawPayloadV {
    pub prayer_time: Seq<RawPrayerTimeV>,
    pub status: Seq<u8>,
    pub server_time: Seq<u8>,
    pub period_type: Seq<u8>,
    pub lang: Seq<u8>,
    pub zone: Seq<u8>,
}

impl View for RawPayload {
    type V = RawPayloadV;

    open spec fn view(&self) -> RawPayloadV {
        RawPayloadV {
            prayer_time: rpts_view(self.prayer_time@),
            status: self.status@,
            server_time: self.server_time@,
            period_type: self.period_type@,
            lang: self.lang@,
            zone: self.zone@,
        }
    }
}

/// One day's decoded schedule: a lunar-calendar label kept as opaque text,
/// the Gregorian date, and seven timestamps. Each timestamp is anchored to
/// the calendar day of decoding; only its time-of-day component is
/// meaningful on the wire.
pub struct PrayerTime {
    pub hijri: Vec<u8>,
    pub date: Date,
    pub imsak: DateTime,
    pub fajr: DateTime,
    pub syuruk: DateTime,
    pub dhuhr: DateTime,
    pub asr: DateTime,
    pub maghrib: DateTime,
    pub isha: DateTime,
}

/// The mathematical value of a decoded schedule entry.
pub ghost struct PrayerTimeV {
    pub hijri: Seq<u8>,
    pub date: Date,
    pub imsak: DateTime,
    pub fajr: DateTime,
    pub syuruk: DateTime,
    pub dhuhr: DateTime,
    pub asr: DateTime,
    pub maghrib: DateTime,
    pub isha: DateTime,
}

impl View for PrayerTime {
    type V = PrayerTimeV;

    open spec fn view(&self) -> PrayerTimeV {
        PrayerTimeV {
            hijri: self.hijri@,
            date: self.date,
            imsak: self.imsak,
            fajr: self.fajr,
            syuruk: self.syuruk,
            dhuhr: self.dhuhr,
            asr: self.asr,
            maghrib: self.maghrib,
            isha: self.isha,
        }
    }
}

/// A well-formed decoded entry: its date and all seven timestamps are valid
/// calendar values.
pub open spec fn pt_valid(p: PrayerTimeV) -> bool {
    date_valid(p.date) && datetime_valid(p.imsak) && datetime_valid(p.fajr) && datetime_valid(
        p.syuruk,
    ) && datetime_valid(p.dhuhr) && datetime_valid(p.asr) && datetime_valid(p.maghrib)
        && datetime_valid(p.isha)
}

/// The decoded response envelope.
pub struct PrayerData {
    pub prayer_time: Vec<PrayerTime>,
    pub status: Vec<u8>,
    pub server_time: Vec<u8>,
    pub period_type: Vec<u8>,
    pub lang: Vec<u8>,
    pub zone: Vec<u8>,
}

/// The mathematical value of a decoded response envelope.
pub ghost struct PrayerDataV {
    pub prayer_time: Seq<PrayerTimeV>,
    pub status: Seq<u8>,
    pub server_time: Seq<u8>,
    pub period_type: Seq<u8>,
    pub lang: Seq<u8>,
    pub zone: Seq<u8>,
}

pub open spec fn pts_view(s: Seq<PrayerTime>) -> Seq<PrayerTimeV> {
    s.map_values(|p: PrayerTime| p@)
}

impl View for PrayerData {
    type V = PrayerDataV;

    open spec fn view(&self) -> PrayerDataV {
        PrayerDataV {
            prayer_time: pts_view(self.prayer_time@),
            status: self.status@,
            server_time: self.server_time@,
            period_type: self.period_type@,
            lang: self.lang@,
            zone: self.zone@,
        }
    }
}

impl PrayerData {
    /// The first schedule entry of the result, or `EmptyResult` when the
    /// query returned none.
    pub fn first_entry(&self) -> (r: Result<&PrayerTime, Error>)
        ensures
            self.prayer_time@.len() > 0 ==> r is Ok && r->Ok_0@ == self@.prayer_time[0],
            self.prayer_time@.len() == 0 ==> r is Err && r->Err_0 == Error::EmptyResult,
    {
        if self.prayer_time.len() > 0 {
            Ok(&self.prayer_time[0])
        } else {
            Err(Error::EmptyResult)
        }
    }
}

// ---------- decoding ----------

/// What a raw entry decodes to: the date goes through the locale pass and
/// the strict wire-date parse; each of the seven times is a bare `HH:MM:SS`
/// anchored to `today`, the calendar day of decoding. Any field that fails
/// makes the whole entry fail.
pub open spec fn spec_decode_entry(raw: RawPrayerTimeV, today: Date) -> Option<PrayerTimeV> {
    match (spec_decode_date(raw.date), spec_parse_time(raw.imsak), spec_parse_time(raw.fajr),
    spec_parse_time(raw.syuruk), spec_parse_time(raw.dhuhr), spec_parse_time(raw.asr),
    spec_parse_time(raw.maghrib), spec_parse_time(raw.isha)) {
        (
            Some(d),
            Some(t1),
            Some(t2),
            Some(t3),
            Some(t4),
            Some(t5),
            Some(t6),
            Some(t7),
        ) => Some(
            PrayerTimeV {
                hijri: raw.hijri,
                date: d,
                imsak: DateTime { date: today, time: t1 },
                fajr: DateTime { date: today, time: t2 },
                syuruk: DateTime { date: today, time: t3 },
                dhuhr: DateTime { date: today, time: t4 },
                asr: DateTime { date: today, time: t5 },
                maghrib: DateTime { date: today, time: t6 },
                isha: DateTime { date: today, time: t7 },
            },
        ),
        _ => None,
    }
}

/// A decoded entry is a well-formed calendar value, and all seven of its
/// timestamps carry the decode-day as their date.
pub proof fn lemma_decode_entry_valid(raw: RawPrayerTimeV, today: Date)
    requires
        date_valid(today),
        spec_decode_entry(raw, today) is Some,
    ensures
        pt_valid(spec_decode_entry(raw, today)->Some_0),
        spec_decode_entry(raw, today)->Some_0.imsak.date == today,
{
}

/// Decodes one raw entry against the given decode-day.
pub fn decode_entry(raw: &RawPrayerTime, today: Date) -> (r: Result<PrayerTime, Error>)
    requires
        date_valid(today),
    ensures
        match spec_decode_entry(raw@, today) {
            Some(v) => r is Ok && r->Ok_0@ == v,
            None => r is Err && r->Err_0 == Error::DecodeFailure,
        },
{
    let date = match decode_date(&raw.date) {
        Ok(d) => d,
        Err(e) => {
            return Err(e);
        },
    };
    let imsak = match decode_time_with_date(&raw.imsak, today) {
        Ok(t) => t,
        Err(e) => {
            return Err(e);
        },
    };
    let fajr = match decode_time_with_date(&raw.fajr, today) {
        Ok(t) => t,
        Err(e) => {
            return Err(e);
        },
    };
    let syuruk = match decode_time_with_date(&raw.syuruk, today) {
        Ok(t) => t,
        Err(e) => {
            return Err(e);
        },
    };
    let dhuhr = match decode_time_with_date(&raw.dhuhr, today) {
        Ok(t) => t,
        Err(e) => {
            return Err(e);
        },
    };
    let asr = match decode_time_with_date(&raw.asr, today) {
        Ok(t) => t,
        Err(e) => {
            return Err(e);
        },
    };
    let maghrib = match decode_time_with_date(&raw.maghrib, today) {
        Ok(t) => t,
        Err(e) => {
            return Err(e);
        },
    };
    let isha = match decode_time_with_date(&raw.isha, today) {
        Ok(t) => t,
        Err(e) => {
            return Err(e);
        },
    };
    let mut hijri: Vec<u8> = Vec::new();
    crate::dates::push_bytes(&mut hijri, &raw.hijri);
    proof {
        assert(hijri@ =~= raw.hijri@);
    }
    Ok(PrayerTime { hijri, date, imsak, fajr, syuruk, dhuhr, asr, maghrib, isha })
}

/// What a sequence of raw entries decodes to: each in order, all or nothing.
pub open spec fn spec_decode_entries(rs: Seq<RawPrayerTimeV>, today: Date) -> Option<
    Seq<PrayerTimeV>,
>
    decreases rs.len(),
{
    if rs.len() == 0 {
        Some(Seq::empty())
    } else {
        match (spec_decode_entry(rs[0], today), spec_decode_entries(rs.skip(1), today)) {
            (Some(v), Some(tail)) => Some(seq![v] + tail),
            _ => None,
        }
    }
}

fn decode_entries_from(raws: &Vec<RawPrayerTime>, k: usize, today: Date) -> (r: Result<
    Vec<PrayerTime>,
    Error,
>)
    requires
        date_valid(today),
        k <= raws@.len(),
    ensures
        match spec_decode_entries(rpts_view(raws@).skip(k as int), today) {
            Some(vs) => r is Ok && pts_view(r->Ok_0@) == vs,
            None => r is Err && r->Err_0 == Error::DecodeFailure,
        },
    decreases raws@.len() - k,
{
    if k == raws.len() {
        proof {
            assert(rpts_view(raws@).skip(k as int) =~= Seq::<RawPrayerTimeV>::empty());
            assert(pts_view(Seq::<PrayerTime>::empty()) =~= Seq::<PrayerTimeV>::empty());
        }
        return Ok(Vec::new());
    }
    proof {
        assert(rpts_view(raws@).skip(k as int)[0] == raws@[k as int]@);
        assert(rpts_view(raws@).skip(k as int).skip(1) =~= rpts_view(raws@).skip(k as int + 1));
    }
    let head = match decode_entry(&raws[k], today) {
        Ok(p) => p,
        Err(e) => {
            return Err(e);
        },
    };
    match decode_entries_from(raws, k + 1, today) {
        Ok(mut tail) => {
            tail.insert(0, head);
            proof {
                let vs = spec_decode_entries(rpts_view(raws@).skip(k as int), today)->Some_0;
                assert(pts_view(tail@) =~= vs);
            }
            Ok(tail)
        },
        Err(e) => Err(e),
    }
}

/// What a raw payload decodes to: every schedule entry decoded in order,
/// the metadata fields passed through unchanged.
pub open spec fn spec_decode_payload(raw: RawPayloadV, today: Date) -> Option<PrayerDataV> {
    match spec_decode_entries(raw.prayer_time, today) {
        Some(vs) => Some(
            PrayerDataV {
                prayer_time: vs,
                status: raw.status,
                server_time: raw.server_time,
                period_type: raw.period_type,
                lang: raw.lang,
                zone: raw.zone,
            },
        ),
        None => None,
    }
}

/// Decodes a raw payload against the given decode-day. Fails with
/// `DecodeFailure` exactly when some entry's date or time string does not
/// parse.
pub fn decode_payload(raw: RawPayload, today: Date) -> (r: Result<PrayerData, Error>)
    requires
        date_valid(today),
    ensures
        match spec_decode_payload(raw@, today) {
            Some(v) => r is Ok && r->Ok_0@ == v,
            None => r is Err && r->Err_0 == Error::DecodeFailure,
        },
{
    proof {
        assert(rpts_view(raw.prayer_time@).skip(0) =~= rpts_view(raw.prayer_time@));
    }
    match decode_entries_from(&raw.prayer_time, 0, today) {
        Ok(entries) => Ok(
            PrayerData {
                prayer_time: entries,
                status: raw.status,
                server_time: raw.server_time,
                period_type: raw.period_type,
                lang: raw.lang,
                zone: raw.zone,
            },
        ),
        Err(e) => Err(e),
    }
}


impl PrayerTime {
    /// A deep copy with the same mathematical value.
    pub fn duplicate(&self) -> (r: PrayerTime)
        ensures
            r@ == self@,
    {
        let mut hijri: Vec<u8> = Vec::new();
        crate::dates::push_bytes(&mut hijri, &self.hijri);
        proof {
            assert(hijri@ =~= self.hijri@);
        }
        PrayerTime {
            hijri,
            date: self.date,
            imsak: self.imsak,
            fajr: self.fajr,
            syuruk: self.syuruk,
            dhuhr: self.dhuhr,
            asr: self.asr,
            maghrib: self.maghrib,
            isha: self.isha,
        }
    }
}

proof fn lemma_decode_entries_all_valid(rs: Seq<RawPrayerTimeV>, today: Date)
    requires
        date_valid(today),
        spec_decode_entries(rs, today) is Some,
    ensures
        forall|k: int|
            0 <= k < spec_decode_entries(rs, today)->Some_0.len() ==> pt_valid(
                #[trigger] spec_decode_entries(rs, today)->Some_0[k],
            ),
    decreases rs.len(),
{
    if rs.len() == 0 {
    } else {
        lemma_decode_entry_valid(rs[0], today);
        lemma_decode_entries_all_valid(rs.skip(1), today);
        let whole = spec_decode_entries(rs, today)->Some_0;
        let tail = spec_decode_entries(rs.skip(1), today)->Some_0;
        assert forall|k: int| 0 <= k < whole.len() implies pt_valid(whole[k]) by {
            if k == 0 {
                assert(whole[k] == spec_decode_entry(rs[0], today)->Some_0);
            } else {
                assert(whole[k] == tail[k - 1]);
            }
        }
    }
}

/// Every entry of a successfully decoded payload is a well-formed
/// calendar value.
pub proof fn lemma_decode_payload_entries_valid(raw: RawPayloadV, today: Date)
    requires
        date_valid(today),
        spec_decode_payload(raw, today) is Some,
    ensures
        forall|k: int|
            0 <= k < spec_decode_payload(raw, today)->Some_0.prayer_time.len() ==> pt_valid(
                #[trigger] spec_decode_payload(raw, today)->Some_0.prayer_time[k],
            ),
{
    lemma_decode_entries_all_valid(raw.prayer_time, today);
}


proof fn lemma_decode_entries_day_irrelevant(rs: Seq<RawPrayerTimeV>, t1: Date, t2: Date)
    ensures
        spec_decode_entries(rs, t1) is Some <==> spec_decode_entries(rs, t2) is Some,
    decreases rs.len(),
{
    if rs.len() == 0 {
    } else {
        lemma_decode_entries_day_irrelevant(rs.skip(1), t1, t2);
    }
}

/// Whether a payload decodes does not depend on the decode-day: the day
/// only fills the date component of each timestamp, never the verdict.
pub proof fn lemma_decode_day_irrelevant(raw: RawPayloadV, t1: Date, t2: Date)
    ensures
        spec_decode_payload(raw, t1) is Some <==> spec_decode_payload(raw, t2) is Some,
{
    lemma_decode_entries_day_irrelevant(raw.prayer_time, t1, t2);
}

} // verus!
