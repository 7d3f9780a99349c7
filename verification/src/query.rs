use vstd::prelude::*;
use vstd::string::*;

use crate::cache::{Cache, CacheEntryV, cache_valid, spec_insert};
use crate::dates::{Date, DateTime, date_valid, datetime_valid, push_bytes};
use crate::model::{
    PrayerData, PrayerTime, PrayerTimeV, RawPayload, RawPayloadV, RawPrayerTime, RawPrayerTimeV,
    decode_payload, lemma_decode_day_irrelevant, lemma_decode_payload_entries_valid, pt_valid,
    pts_view, rpts_view, spec_decode_payload,
};
use crate::outside::{
    array_len_field, entry_str_field, json_array_len_of, json_entry_str, json_top_str,
    top_str_field,
};
use crate::zones::{Zones, zone_code};
use crate::Error;

verus! {

/// How many schedule entries a query asks for.
#[derive(Clone, Copy, PartialEq, Eq, Structural, Debug)]
pub enum TimePeriod {
    Today,
    Week,
    Month,
    Year,
}

/// The lowercase wire token of a period.
pub open spec fn period_token(t: TimePeriod) -> Seq<u8> {
    match t {
        TimePeriod::Today => "today".spec_bytes(),
        TimePeriod::Week => "week".spec_bytes(),
        TimePeriod::Month => "month".spec_bytes(),
        TimePeriod::Year => "year".spec_bytes(),
    }
}

impl TimePeriod {
    /// The lowercase wire token of this period, as bytes.
    pub fn token_bytes(&self) -> (r: Vec<u8>)
        ensures
            r@ == period_token(*self),
    {
        match *self {
            TimePeriod::Today => "today".as_bytes_vec(),
            TimePeriod::Week => "week".as_bytes_vec(),
            TimePeriod::Month => "month".as_bytes_vec(),
            TimePeriod::Year => "year".as_bytes_vec(),
        }
    }
}

impl Default for TimePeriod {
    /// The default period.
    fn default() -> (r: Self)
        ensures
            r == TimePeriod::Today,
    {
        TimePeriod::Today
    }
}

/// The fixed endpoint the query is sent to.
pub open spec fn url_base() -> Seq<u8> {
    "https://www.e-solat.gov.my/index.php?r=esolatApi/TakwimSolat".spec_bytes()
}

/// The full request URL for a zone and a period: the fixed endpoint with
/// the `period` and `zone` query parameters appended.
pub open spec fn spec_url(z: Zones, t: TimePeriod) -> Seq<u8> {
    url_base() + "&period=".spec_bytes() + period_token(t) + "&zone=".spec_bytes() + zone_code(z)
}

/// The zone actually queried when the caller may have omitted one: the
/// designated default stands in for `None`.
pub open spec fn resolved_zone(zone: Option<Zones>) -> Zones {
    match zone {
        Some(z) => z,
        None => Zones::SGR01,
    }
}

pub open spec fn resolved_period(time: Option<TimePeriod>) -> TimePeriod {
    match time {
        Some(t) => t,
        None => TimePeriod::Today,
    }
}

/// Accumulates a zone and a period, then builds the outbound request.
pub struct PrayerQueryBuilder {
    pub zone: Zones,
    pub time: TimePeriod,
}

impl Default for PrayerQueryBuilder {
    /// The default query: the default zone, today's schedule.
    fn default() -> (r: Self)
        ensures
            r.zone == Zones::SGR01,
            r.time == TimePeriod::Today,
    {
        PrayerQueryBuilder { zone: Zones::SGR01, time: TimePeriod::Today }
    }
}

impl PrayerQueryBuilder {
    pub fn new() -> (r: Self)
        ensures
            r.zone == Zones::SGR01,
            r.time == TimePeriod::Today,
    {
        Self::default()
    }

    pub fn zone(self, zone: Zones) -> (r: Self)
        ensures
            r.zone == zone,
            r.time == self.time,
    {
        PrayerQueryBuilder { zone, time: self.time }
    }

    pub fn time(self, time: TimePeriod) -> (r: Self)
        ensures
            r.time == time,
            r.zone == self.zone,
    {
        PrayerQueryBuilder { zone: self.zone, time }
    }

    /// The exact bytes of the request URL for this query.
    pub fn build_url(&self) -> (r: Vec<u8>)
        ensures
            r@ == spec_url(self.zone, self.time),
    {
        let mut out: Vec<u8> = "https://www.e-solat.gov.my/index.php?r=esolatApi/TakwimSolat"
            .as_bytes_vec();
        let amp_period = "&period=".as_bytes_vec();
        push_bytes(&mut out, &amp_period);
        let tok = self.time.token_bytes();
        push_bytes(&mut out, &tok);
        let amp_zone = "&zone=".as_bytes_vec();
        push_bytes(&mut out, &amp_zone);
        let code = self.zone.code_bytes();
        push_bytes(&mut out, &code);
        proof {
            assert(out@ =~= spec_url(self.zone, self.time));
        }
        out
    }
}

/// Resolves optional query parameters as a caller-facing entry point does:
/// an omitted zone falls back to the designated default zone, an omitted
/// period to today.
pub fn from_options_builder(zone: Option<Zones>, time: Option<TimePeriod>) -> (r:
    PrayerQueryBuilder)
    ensures
        r.zone == resolved_zone(zone),
        r.time == resolved_period(time),
{
    let z = match zone {
        Some(z) => z,
        None => Zones::SGR01,
    };
    let t = match time {
        Some(t) => t,
        None => TimePeriod::Today,
    };
    PrayerQueryBuilder::new().zone(z).time(t)
}

/// Querying with the zone omitted uses the designated default zone: the
/// `zone` parameter of the outbound request URL is the default zone's code.
pub proof fn lemma_default_zone_in_url(time: TimePeriod)
    ensures
        spec_url(resolved_zone(None::<Zones>), time) == url_base() + "&period=".spec_bytes()
            + period_token(time) + "&zone=".spec_bytes() + zone_code(Zones::SGR01),
{
}

// ---------- extracting the raw payload from the body ----------

/// The raw entry at index `i` of the body's schedule array, read field by
/// field through the named JSON readings: present exactly when all nine
/// fields are strings of the `i`-th array element.
pub open spec fn spec_raw_entry(body: Seq<u8>, i: int) -> Option<RawPrayerTimeV> {
    match (json_entry_str(body, "prayerTime"@, i, "hijri"@), json_entry_str(
        body,
        "prayerTime"@,
        i,
        "date"@,
    ), json_entry_str(body, "prayerTime"@, i, "imsak"@), json_entry_str(
        body,
        "prayerTime"@,
        i,
        "fajr"@,
    ), json_entry_str(body, "prayerTime"@, i, "syuruk"@), json_entry_str(
        body,
        "prayerTime"@,
        i,
        "dhuhr"@,
    ), json_entry_str(body, "prayerTime"@, i, "asr"@), json_entry_str(
        body,
        "prayerTime"@,
        i,
        "maghrib"@,
    ), json_entry_str(body, "prayerTime"@, i, "isha"@)) {
        (
            Some(hijri),
            Some(date),
            Some(imsak),
            Some(fajr),
            Some(syuruk),
            Some(dhuhr),
            Some(asr),
            Some(maghrib),
            Some(isha),
        ) => Some(
            RawPrayerTimeV { hijri, date, imsak, fajr, syuruk, dhuhr, asr, maghrib, isha },
        ),
        _ => None,
    }
}

/// The raw entries from index `i` up to `n`, in order, all or nothing.
pub open spec fn spec_raw_entries(body: Seq<u8>, i: int, n: int) -> Option<Seq<RawPrayerTimeV>>
    decreases n - i,
{
    if i >= n {
        Some(Seq::empty())
    } else {
        match (spec_raw_entry(body, i), spec_raw_entries(body, i + 1, n)) {
            (Some(e), Some(tail)) => Some(seq![e] + tail),
            _ => None,
        }
    }
}

/// The raw payload the body holds: the five metadata strings, the schedule
/// array's length, and every entry's nine string fields, all given by the
/// named JSON readings; `None` exactly when any of them is missing.
pub open spec fn spec_extract_payload(body: Seq<u8>) -> Option<RawPayloadV> {
    match (json_array_len_of(body, "prayerTime"@), json_top_str(body, "status"@), json_top_str(
        body,
        "serverTime"@,
    ), json_top_str(body, "periodType"@), json_top_str(body, "lang"@), json_top_str(
        body,
        "zone"@,
    )) {
        (
            Some(n),
            Some(status),
            Some(server_time),
            Some(period_type),
            Some(lang),
            Some(zone),
        ) => match spec_raw_entries(body, 0, n) {
            Some(entries) => Some(
                RawPayloadV { prayer_time: entries, status, server_time, period_type, lang, zone },
            ),
            None => None,
        },
        _ => None,
    }
}

fn extract_entry(body: &Vec<u8>, i: usize) -> (r: Option<RawPrayerTime>)
    ensures
        match r {
            Some(e) => spec_raw_entry(body@, i as int) == Some(e@),
            None => spec_raw_entry(body@, i as int) is None,
        },
{
    let hijri = match entry_str_field(body, "prayerTime", i, "hijri") {
        Some(v) => v,
        None => {
            return None;
        },
    };
    let date = match entry_str_field(body, "prayerTime", i, "date") {
        Some(v) => v,
        None => {
            return None;
        },
    };
    let imsak = match entry_str_field(body, "prayerTime", i, "imsak") {
        Some(v) => v,
        None => {
            return None;
        },
    };
    let fajr = match entry_str_field(body, "prayerTime", i, "fajr") {
        Some(v) => v,
        None => {
            return None;
        },
    };
    let syuruk = match entry_str_field(body, "prayerTime", i, "syuruk") {
        Some(v) => v,
        None => {
            return None;
        },
    };
    let dhuhr = match entry_str_field(body, "prayerTime", i, "dhuhr") {
        Some(v) => v,
        None => {
            return None;
        },
    };
    let asr = match entry_str_field(body, "prayerTime", i, "asr") {
        Some(v) => v,
        None => {
            return None;
        },
    };
    let maghrib = match entry_str_field(body, "prayerTime", i, "maghrib") {
        Some(v) => v,
        None => {
            return None;
        },
    };
    let isha = match entry_str_field(body, "prayerTime", i, "isha") {
        Some(v) => v,
        None => {
            return None;
        },
    };
    Some(RawPrayerTime { hijri, date, imsak, fajr, syuruk, dhuhr, asr, maghrib, isha })
}

fn extract_entries(body: &Vec<u8>, i: usize, n: usize) -> (r: Option<Vec<RawPrayerTime>>)
    requires
        i <= n,
    ensures
        match r {
            Some(es) => spec_raw_entries(body@, i as int, n as int) == Some(rpts_view(es@)),
            None => spec_raw_entries(body@, i as int, n as int) is None,
        },
    decreases n - i,
{
    if i == n {
        proof {
            assert(rpts_view(Seq::<RawPrayerTime>::empty()) =~= Seq::<RawPrayerTimeV>::empty());
        }
        return Some(Vec::new());
    }
    let head = match extract_entry(body, i) {
        Some(e) => e,
        None => {
            return None;
        },
    };
    match extract_entries(body, i + 1, n) {
        Some(mut tail) => {
            let ghost tailv = tail@;
            let ghost headv = head@;
            tail.insert(0, head);
            proof {
                assert(rpts_view(tail@) =~= seq![headv] + rpts_view(tailv));
            }
            Some(tail)
        },
        None => None,
    }
}

fn extract_payload(body: &Vec<u8>) -> (r: Option<RawPayload>)
    ensures
        match r {
            Some(raw) => spec_extract_payload(body@) == Some(raw@),
            None => spec_extract_payload(body@) is None,
        },
{
    let n = match array_len_field(body, "prayerTime") {
        Some(n) => n,
        None => {
            return None;
        },
    };
    let status = match top_str_field(body, "status") {
        Some(v) => v,
        None => {
            return None;
        },
    };
    let server_time = match top_str_field(body, "serverTime") {
        Some(v) => v,
        None => {
            return None;
        },
    };
    let period_type = match top_str_field(body, "periodType") {
        Some(v) => v,
        None => {
            return None;
        },
    };
    let lang = match top_str_field(body, "lang") {
        Some(v) => v,
        None => {
            return None;
        },
    };
    let zone = match top_str_field(body, "zone") {
        Some(v) => v,
        None => {
            return None;
        },
    };
    let entries = match extract_entries(body, 0, n) {
        Some(es) => es,
        None => {
            return None;
        },
    };
    Some(RawPayload { prayer_time: entries, status, server_time, period_type, lang, zone })
}

/// Decodes a response body. The named JSON readings fix the raw payload the
/// bytes hold, and the decode of that payload fixes the result: `Ok` of the
/// decoded envelope exactly when the shape is present and every date and
/// time field parses, `DecodeFailure` otherwise.
pub fn decode_response(body: &Vec<u8>, today: Date) -> (r: Result<PrayerData, Error>)
    requires
        date_valid(today),
    ensures
        match spec_extract_payload(body@) {
            Some(raw) => (match spec_decode_payload(raw, today) {
                Some(v) => r is Ok && r->Ok_0@ == v,
                None => r is Err && r->Err_0 == Error::DecodeFailure,
            }),
            None => r is Err && r->Err_0 == Error::DecodeFailure,
        },
{
    let raw = match extract_payload(body) {
        Some(rp) => rp,
        None => {
            return Err(Error::DecodeFailure);
        },
    };
    decode_payload(raw, today)
}

// ---------- feeding the cache ----------

/// What a batch of inserts leaves in the store: each entry upserted in
/// order under the queried zone, all stamped with the same refresh time.
pub open spec fn spec_ingest(
    rows: Seq<crate::cache::ZoneBlockV>,
    zone: Zones,
    entries: Seq<PrayerTimeV>,
    now: DateTime,
) -> Seq<crate::cache::ZoneBlockV>
    decreases entries.len(),
{
    if entries.len() == 0 {
        rows
    } else {
        spec_ingest(
            spec_insert(rows, zone, CacheEntryV { last_update: now, data: entries[0] }),
            zone,
            entries.skip(1),
            now,
        )
    }
}

/// Upserts every entry of a decoded result into the store, in order, each
/// stamped with `now`.
pub fn ingest(cache: &mut Cache, zone: Zones, data: &PrayerData, now: DateTime)
    requires
        datetime_valid(now),
        cache_valid(old(cache)@),
        forall|k: int|
            0 <= k < data.prayer_time@.len() ==> pt_valid((#[trigger] data.prayer_time@[k])@),
    ensures
        final(cache)@ == spec_ingest(old(cache)@, zone, pts_view(data.prayer_time@), now),
        cache_valid(final(cache)@),
{
    let ghost rows0 = cache@;
    let ghost all = pts_view(data.prayer_time@);
    proof {
        assert(all.skip(0) =~= all);
    }
    let n = data.prayer_time.len();
    let mut i: usize = 0;
    while i < n
        invariant
            i <= n,
            n == data.prayer_time@.len(),
            datetime_valid(now),
            cache_valid(cache@),
            forall|k: int|
                0 <= k < data.prayer_time@.len() ==> pt_valid((#[trigger] data.prayer_time@[k])@),
            all == pts_view(data.prayer_time@),
            spec_ingest(rows0, zone, all, now) == spec_ingest(
                cache@,
                zone,
                all.skip(i as int),
                now,
            ),
        decreases n - i,
    {
        let entry = data.prayer_time[i].duplicate();
        cache.insert(zone, entry, now);
        i = i + 1;
        proof {
            assert(all.skip(i - 1)[0] == all[i - 1]);
            assert(all.skip(i - 1).skip(1) =~= all.skip(i as int));
        }
    }
    proof {
        assert(all.skip(n as int) =~= Seq::<PrayerTimeV>::empty());
    }
}

/// The computing half of running a query, after the body has been fetched:
/// decodes the body, and on success upserts every decoded entry into the
/// store. A decode failure surfaces at once and leaves the store untouched.
pub fn process_response(
    cache: &mut Cache,
    zone: Zones,
    body: &Vec<u8>,
    today: Date,
    now: DateTime,
) -> (r: Result<PrayerData, Error>)
    requires
        date_valid(today),
        datetime_valid(now),
        cache_valid(old(cache)@),
    ensures
        cache_valid(final(cache)@),
        match spec_extract_payload(body@) {
            Some(raw) => (match spec_decode_payload(raw, today) {
                Some(v) => r is Ok && r->Ok_0@ == v && final(cache)@ == spec_ingest(
                    old(cache)@,
                    zone,
                    v.prayer_time,
                    now,
                ),
                None => r is Err && r->Err_0 == Error::DecodeFailure && final(cache)@ == old(
                    cache,
                )@,
            }),
            None => r is Err && r->Err_0 == Error::DecodeFailure && final(cache)@ == old(cache)@,
        },
{
    let data = match decode_response(body, today) {
        Ok(d) => d,
        Err(e) => {
            return Err(e);
        },
    };
    proof {
        let raw = spec_extract_payload(body@)->Some_0;
        lemma_decode_payload_entries_valid(raw, today);
        assert(spec_decode_payload(raw, today)->Some_0 == data@);
        assert forall|k: int| 0 <= k < data@.prayer_time.len() implies pt_valid(
            #[trigger] data@.prayer_time[k],
        ) by {
            assert(pt_valid(spec_decode_payload(raw, today)->Some_0.prayer_time[k]));
        }
        assert forall|k: int| 0 <= k < data.prayer_time@.len() implies pt_valid(
            (#[trigger] data.prayer_time@[k])@,
        ) by {
            assert(data@.prayer_time[k] == data.prayer_time@[k]@);
        }
    }
    ingest(cache, zone, &data, now);
    Ok(data)
}


/// The computing half of a query run against the ambient clock: decodes
/// the body against the current local day and upserts every entry, stamped
/// with the current local time. The two clock readings only fill the
/// timestamps, so whether the call succeeds is fixed by the body alone;
/// what the success produced is stated for whichever values were read.
pub fn process_response_local(cache: &mut Cache, zone: Zones, body: &Vec<u8>) -> (r: Result<
    PrayerData,
    Error,
>)
    requires
        cache_valid(old(cache)@),
    ensures
        cache_valid(final(cache)@),
        match spec_extract_payload(body@) {
            Some(raw) => {
                &&& (r is Ok <==> (forall|t: Date| #[trigger] spec_decode_payload(raw, t) is Some))
                &&& r is Ok ==> exists|today: Date, now: DateTime|
                    #![trigger spec_decode_payload(raw, today), spec_ingest(old(cache)@, zone, r->Ok_0@.prayer_time, now)]
                    date_valid(today) && datetime_valid(now) && spec_decode_payload(raw, today)
                        == Some(r->Ok_0@) && final(cache)@ == spec_ingest(
                        old(cache)@,
                        zone,
                        r->Ok_0@.prayer_time,
                        now,
                    )
                &&& r is Err ==> r->Err_0 == Error::DecodeFailure && final(cache)@ == old(cache)@
            },
            None => r is Err && r->Err_0 == Error::DecodeFailure && final(cache)@ == old(cache)@,
        },
{
    let today = crate::outside::local_today();
    let now = crate::outside::local_now();
    let result = process_response(cache, zone, body, today, now);
    proof {
        if spec_extract_payload(body@) is Some {
            let raw = spec_extract_payload(body@)->Some_0;
            if result is Ok {
                assert forall|t: Date| #[trigger] spec_decode_payload(raw, t) is Some by {
                    lemma_decode_day_irrelevant(raw, today, t);
                }
                assert(spec_decode_payload(raw, today) == Some(result->Ok_0@));
            } else {
                assert(spec_decode_payload(raw, today) is None);
            }
        }
    }
    result
}

} // verus!
