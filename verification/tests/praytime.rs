use praytime::cache::Cache;
use praytime::config::Config;
use praytime::dates::{Date, DateTime, TimeOfDay};
use praytime::locale::{convert_my_to_en_date, decode_date, decode_time_of_day, decode_time_with_date, encode_date, encode_time_of_day};
use praytime::model::{PrayerData, PrayerTime};
use praytime::query::{decode_response, from_options_builder, process_response, PrayerQueryBuilder, TimePeriod};
use praytime::render::render_report;
use praytime::zones::Zones;
use praytime::Error;

fn d(year: u16, month: u8, day: u8) -> Date {
    Date { year, month, day }
}

fn t(hour: u8, minute: u8, second: u8) -> TimeOfDay {
    TimeOfDay { hour, minute, second }
}

fn sample_entry(hijri: &[u8]) -> PrayerTime {
    let day = d(2021, 4, 8);
    let anchor = d(2021, 4, 9);
    PrayerTime {
        hijri: hijri.to_vec(),
        date: day,
        imsak: DateTime { date: anchor, time: t(5, 52, 0) },
        fajr: DateTime { date: anchor, time: t(6, 2, 0) },
        syuruk: DateTime { date: anchor, time: t(7, 9, 0) },
        dhuhr: DateTime { date: anchor, time: t(13, 18, 0) },
        asr: DateTime { date: anchor, time: t(16, 25, 0) },
        maghrib: DateTime { date: anchor, time: t(19, 22, 0) },
        isha: DateTime { date: anchor, time: t(20, 32, 0) },
    }
}

#[test]
fn locale_tokens_decode_like_english() {
    let pairs: [(&[u8], &[u8], Date); 4] = [
        (b"08-Mei-2021", b"08-May-2021", d(2021, 5, 8)),
        (b"01-Ogos-1999", b"01-Aug-1999", d(1999, 8, 1)),
        (b"31-Okt-2020", b"31-Oct-2020", d(2020, 10, 31)),
        (b"25-Dis-2021", b"25-Dec-2021", d(2021, 12, 25)),
    ];
    for (local, english, expected) in pairs {
        let from_local = decode_date(&local.to_vec());
        let from_english = decode_date(&english.to_vec());
        assert_eq!(from_local, from_english);
        assert_eq!(from_local, Ok(expected));
    }
}

#[test]
fn locale_pass_rewrites_only_the_token() {
    assert_eq!(convert_my_to_en_date(&b"08-Mei-2021".to_vec()), b"08-May-2021".to_vec());
    assert_eq!(convert_my_to_en_date(&b"08-Apr-2021".to_vec()), b"08-Apr-2021".to_vec());
}

#[test]
fn date_round_trip_is_english_only() {
    let dates = [d(2021, 4, 8), d(2020, 2, 29), d(1999, 12, 31), d(2021, 5, 8)];
    for day in dates {
        let encoded = encode_date(day);
        let decoded = decode_date(&encoded).unwrap();
        assert_eq!(decoded, day);
        assert_eq!(encode_date(decoded), encoded);
    }
    // a locale-spelled input re-encodes to the English spelling
    let decoded = decode_date(&b"08-Mei-2021".to_vec()).unwrap();
    assert_eq!(encode_date(decoded), b"08-May-2021".to_vec());
}

#[test]
fn misspelled_march_is_preserved_not_corrected() {
    // "Mac" passes through the locale pass as literal text and then fails
    // the English-month parse
    assert_eq!(convert_my_to_en_date(&b"08-Mac-2021".to_vec()), b"08-Mac-2021".to_vec());
    assert_eq!(decode_date(&b"08-Mac-2021".to_vec()), Err(Error::DecodeFailure));
}

#[test]
fn malformed_dates_are_rejected() {
    assert_eq!(decode_date(&b"2021-04-08".to_vec()), Err(Error::DecodeFailure));
    assert_eq!(decode_date(&b"31-Feb-2021".to_vec()), Err(Error::DecodeFailure));
    assert_eq!(decode_date(&b"".to_vec()), Err(Error::DecodeFailure));
    assert_eq!(decode_date(&b"29-Feb-2021".to_vec()), Err(Error::DecodeFailure));
    assert_eq!(decode_date(&b"29-Feb-2020".to_vec()), Ok(d(2020, 2, 29)));
}

#[test]
fn time_decode_binds_to_decode_day() {
    let raw = b"06:02:00".to_vec();
    let day1 = d(2021, 4, 9);
    let day2 = d(2021, 4, 10);
    let a = decode_time_with_date(&raw, day1).unwrap();
    let b = decode_time_with_date(&raw, day1).unwrap();
    assert_eq!(a, b);
    let c = decode_time_with_date(&raw, day2).unwrap();
    assert_eq!(a.time, c.time);
    assert_ne!(a.date, c.date);
    assert_eq!(decode_time_with_date(&b"25:00:00".to_vec(), day1), Err(Error::DecodeFailure));
    assert_eq!(decode_time_with_date(&b"6:02:00".to_vec(), day1), Err(Error::DecodeFailure));
}

#[test]
fn time_encode_drops_the_embedded_date() {
    let stamp = DateTime { date: d(2021, 4, 9), time: t(6, 2, 0) };
    assert_eq!(encode_time_of_day(stamp), b"06:02:00".to_vec());
    let other_day = DateTime { date: d(1999, 1, 1), time: t(6, 2, 0) };
    assert_eq!(encode_time_of_day(other_day), b"06:02:00".to_vec());
}

#[test]
fn cache_insert_save_load_round_trip() {
    let mut cache = Cache::new();
    let entry = sample_entry(b"1442-08-25");
    let now = DateTime { date: d(2021, 4, 9), time: t(10, 4, 55) };
    cache.insert(Zones::SGR01, entry, now);
    let saved = cache.to_file_bytes();
    let load_day = d(2021, 4, 20);
    let loaded = Cache::from_file_bytes(&saved, load_day);
    let rec = loaded.get(Zones::SGR01, d(2021, 4, 8)).expect("record must survive the round trip");
    assert_eq!(rec.last_update, now);
    assert_eq!(rec.data.hijri, b"1442-08-25".to_vec());
    assert_eq!(rec.data.date, d(2021, 4, 8));
    assert_eq!(rec.data.fajr.time, t(6, 2, 0));
    assert_eq!(rec.data.isha.time, t(20, 32, 0));
    // times are re-anchored to the day of loading
    assert_eq!(rec.data.fajr.date, load_day);
    assert!(loaded.get(Zones::WLY01, d(2021, 4, 8)).is_none());
    assert!(loaded.get(Zones::SGR01, d(2021, 4, 9)).is_none());
}

#[test]
fn cache_round_trip_escapes_label_text() {
    let mut cache = Cache::new();
    let entry = sample_entry(b"14\\42-\"08\"-25");
    let now = DateTime { date: d(2021, 4, 9), time: t(10, 4, 55) };
    cache.insert(Zones::KDH03, entry, now);
    let saved = cache.to_file_bytes();
    let loaded = Cache::from_file_bytes(&saved, d(2021, 4, 9));
    let rec = loaded.get(Zones::KDH03, d(2021, 4, 8)).unwrap();
    assert_eq!(rec.data.hijri, b"14\\42-\"08\"-25".to_vec());
}

#[test]
fn cache_insert_overwrites_same_key() {
    let mut cache = Cache::new();
    let now1 = DateTime { date: d(2021, 4, 9), time: t(10, 0, 0) };
    let now2 = DateTime { date: d(2021, 4, 9), time: t(11, 0, 0) };
    cache.insert(Zones::SGR01, sample_entry(b"first"), now1);
    cache.insert(Zones::SGR01, sample_entry(b"second"), now2);
    let rec = cache.get(Zones::SGR01, d(2021, 4, 8)).unwrap();
    assert_eq!(rec.data.hijri, b"second".to_vec());
    assert_eq!(rec.last_update, now2);
    assert_eq!(cache.zone_count(), 1);
}

#[test]
fn malformed_cache_file_yields_empty_store() {
    for bad in [
        &b"not json at all"[..],
        b"",
        b"{",
        b"{\"SGR01\":",
        b"[1,2,3]",
        b"{\"SGR01\":{\"2021-04-08\":{\"last_update\":\"oops\"}}}",
    ] {
        let loaded = Cache::from_file_bytes(&bad.to_vec(), d(2021, 4, 9));
        assert_eq!(loaded.zone_count(), 0);
    }
}

#[test]
fn empty_store_saves_and_loads() {
    let cache = Cache::new();
    let saved = cache.to_file_bytes();
    assert_eq!(saved, b"{}".to_vec());
    let loaded = Cache::from_file_bytes(&saved, d(2021, 4, 9));
    assert_eq!(loaded.zone_count(), 0);
}

const SAMPLE: &str = "{\"prayerTime\":[{\"hijri\":\"1442-08-25\",\"date\":\"08-Apr-2021\",\"imsak\":\"05:52:00\",\"fajr\":\"06:02:00\",\"syuruk\":\"07:09:00\",\"dhuhr\":\"13:18:00\",\"asr\":\"16:25:00\",\"maghrib\":\"19:22:00\",\"isha\":\"20:32:00\"}],\"status\":\"OK!\",\"serverTime\":\"2021-04-09 10:04:55\",\"periodType\":\"today\",\"lang\":\"ms_my\",\"zone\":\"SGR01\"}";

#[test]
fn sample_payload_decodes_and_renders_thursday() {
    let today = d(2021, 4, 9);
    let data = decode_response(&SAMPLE.as_bytes().to_vec(), today).unwrap();
    assert_eq!(data.prayer_time.len(), 1);
    let entry = &data.prayer_time[0];
    assert_eq!(entry.date, d(2021, 4, 8));
    assert_eq!(entry.fajr.time, t(6, 2, 0));
    assert_eq!(entry.fajr.date, today);
    assert_eq!(entry.hijri, b"1442-08-25".to_vec());
    assert_eq!(data.status, b"OK!".to_vec());
    assert_eq!(data.zone, b"SGR01".to_vec());
    let report = render_report(entry, &data.zone);
    let text = String::from_utf8(report).unwrap();
    let first = text.lines().next().unwrap();
    assert_eq!(first, "Prayer times for Thursday, 2021-04-08, zone SGR01");
    assert!(text.contains("Subuh:   06:02 AM"));
    assert!(text.contains("Zohor:   01:18 PM"));
    assert!(text.contains("Isyak:   08:32 PM"));
    assert_eq!(text.lines().count(), 8);
}

#[test]
fn extra_fields_in_payload_are_ignored() {
    let body = "{\"prayerTime\":[{\"hijri\":\"1442-08-25\",\"date\":\"08-Apr-2021\",\"day\":\"Thursday\",\"imsak\":\"05:52:00\",\"fajr\":\"06:02:00\",\"syuruk\":\"07:09:00\",\"dhuhr\":\"13:18:00\",\"asr\":\"16:25:00\",\"maghrib\":\"19:22:00\",\"isha\":\"20:32:00\"}],\"status\":\"OK!\",\"serverTime\":\"2021-04-09 10:04:55\",\"periodType\":\"today\",\"lang\":\"ms_my\",\"zone\":\"SGR01\",\"bearing\":\"291\"}";
    let data = decode_response(&body.as_bytes().to_vec(), d(2021, 4, 9)).unwrap();
    assert_eq!(data.prayer_time.len(), 1);
}

#[test]
fn bad_payloads_fail_with_decode_failure() {
    let today = d(2021, 4, 9);
    assert!(matches!(
        decode_response(&b"not json".to_vec(), today),
        Err(Error::DecodeFailure)
    ));
    assert!(matches!(
        decode_response(&b"{\"status\":\"OK!\"}".to_vec(), today),
        Err(Error::DecodeFailure)
    ));
    let bad_time = SAMPLE.replace("06:02:00", "66:02:00");
    assert!(matches!(
        decode_response(&bad_time.as_bytes().to_vec(), today),
        Err(Error::DecodeFailure)
    ));
}

#[test]
fn process_response_feeds_the_cache() {
    let mut cache = Cache::new();
    let today = d(2021, 4, 9);
    let now = DateTime { date: today, time: t(10, 4, 55) };
    let data = process_response(&mut cache, Zones::SGR01, &SAMPLE.as_bytes().to_vec(), today, now)
        .unwrap();
    assert_eq!(data.prayer_time.len(), 1);
    let rec = cache.get(Zones::SGR01, d(2021, 4, 8)).unwrap();
    assert_eq!(rec.last_update, now);
    assert_eq!(rec.data.hijri, b"1442-08-25".to_vec());
    // a decode failure leaves the store untouched
    let before = cache.to_file_bytes();
    let err = process_response(&mut cache, Zones::SGR01, &b"broken".to_vec(), today, now);
    assert!(matches!(err, Err(Error::DecodeFailure)));
    assert_eq!(cache.to_file_bytes(), before);
}

#[test]
fn empty_result_is_reported() {
    let data = PrayerData {
        prayer_time: Vec::new(),
        status: b"OK!".to_vec(),
        server_time: Vec::new(),
        period_type: Vec::new(),
        lang: Vec::new(),
        zone: b"SGR01".to_vec(),
    };
    assert!(matches!(data.first_entry(), Err(Error::EmptyResult)));
}

#[test]
fn zone_omitted_uses_default_zone_in_url() {
    let builder = from_options_builder(None, None);
    let url = String::from_utf8(builder.build_url()).unwrap();
    assert_eq!(
        url,
        "https://www.e-solat.gov.my/index.php?r=esolatApi/TakwimSolat&period=today&zone=SGR01"
    );
    let builder = from_options_builder(Some(Zones::WLY02), Some(TimePeriod::Month));
    let url = String::from_utf8(builder.build_url()).unwrap();
    assert_eq!(
        url,
        "https://www.e-solat.gov.my/index.php?r=esolatApi/TakwimSolat&period=month&zone=WLY02"
    );
}

#[test]
fn builder_accumulates_zone_and_time() {
    let b = PrayerQueryBuilder::new().zone(Zones::PHGO2).time(TimePeriod::Year);
    assert_eq!(b.zone, Zones::PHGO2);
    assert!(matches!(b.time, TimePeriod::Year));
    let url = String::from_utf8(b.build_url()).unwrap();
    assert!(url.ends_with("&period=year&zone=PHGO2"));
}

#[test]
fn zone_codes_round_trip() {
    let all = Zones::all();
    assert_eq!(all.len(), 58);
    for z in &all {
        let code = z.code_bytes();
        assert_eq!(code.len(), 5);
        assert_eq!(Zones::from_code(&code), Some(*z));
    }
    assert_eq!(Zones::from_code(&b"WLY02".to_vec()), Some(Zones::WLY02));
    assert_eq!(Zones::from_code(&b"wly02".to_vec()), None);
    assert_eq!(Zones::from_code(&b"XXX99".to_vec()), None);
    assert_eq!(Zones::default(), Zones::SGR01);
}

#[test]
fn config_supplies_the_default_zone() {
    assert_eq!(Config::new(None).get_default_zone(), Zones::SGR01);
    assert_eq!(Config::new(Some(Zones::JHR02)).get_default_zone(), Zones::JHR02);
}

#[test]
fn weekday_names_match_the_calendar() {
    let checks = [
        (d(2021, 4, 8), "Thursday"),
        (d(2021, 4, 9), "Friday"),
        (d(2000, 1, 1), "Saturday"),
        (d(2020, 2, 29), "Saturday"),
        (d(1999, 12, 31), "Friday"),
    ];
    for (day, name) in checks {
        let wd = praytime::dates::weekday_name_bytes(day);
        assert_eq!(String::from_utf8(wd).unwrap(), name);
    }
}

#[test]
fn twelve_hour_clock_edges() {
    let mut entry = sample_entry(b"x");
    entry.imsak.time = t(0, 5, 0);
    entry.dhuhr.time = t(12, 0, 0);
    let report = String::from_utf8(render_report(&entry, &b"SGR01".to_vec())).unwrap();
    assert!(report.contains("Imsak:   12:05 AM"));
    assert!(report.contains("Zohor:   12:00 PM"));
}

#[test]
fn decode_time_of_day_pins_the_time_component() {
    let a = decode_time_of_day(&b"06:02:00".to_vec()).unwrap();
    let b = decode_time_of_day(&b"06:02:00".to_vec()).unwrap();
    assert_eq!(a.time, t(6, 2, 0));
    // on the same calendar day, two decodes agree in date and time alike
    assert_eq!(a, b);
    assert_eq!(
        decode_time_of_day(&b"6:02 AM".to_vec()),
        Err(Error::DecodeFailure)
    );
}

#[test]
fn insert_now_and_load_keep_the_payload() {
    let mut cache = Cache::new();
    cache.insert_now(Zones::TRG04, sample_entry(b"1442-08-25"));
    let saved = cache.to_file_bytes();
    let loaded = Cache::load(&saved);
    let rec = loaded.get(Zones::TRG04, d(2021, 4, 8)).unwrap();
    assert_eq!(rec.data.hijri, b"1442-08-25".to_vec());
    assert_eq!(rec.data.maghrib.time, t(19, 22, 0));
}
