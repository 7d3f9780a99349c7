use vstd::prelude::*;
use vstd::string::*;

use crate::dates::{
    TimeOfDay, iso_date_bytes, push_bytes, push_iso_date, push2, ser2,
    weekday_index, weekday_name, weekday_name_bytes,
};
use crate::model::{PrayerTime, PrayerTimeV, pt_valid};

verus! {

/// A time of day on the 12-hour clock: zero-padded hour and minute, then
/// an AM or PM suffix.
pub open spec fn fmt12(t: TimeOfDay) -> Seq<u8> {
    let h12: int = if t.hour % 12 == 0 {
        12
    } else {
        t.hour as int % 12
    };
    let suffix = if t.hour < 12 {
        seq![('A' as u8), ('M' as u8)]
    } else {
        seq![('P' as u8), ('M' as u8)]
    };
    ser2(h12) + seq![(':' as u8)] + ser2(t.minute as int) + seq![(' ' as u8)] + suffix
}

fn push_fmt12(out: &mut Vec<u8>, t: TimeOfDay)
    requires
        t.hour < 24 && t.minute < 60,
    ensures
        final(out)@ == old(out)@ + fmt12(t),
{
    let h12: u8 = if t.hour % 12 == 0 {
        12
    } else {
        t.hour % 12
    };
    push2(out, h12);
    out.push(':' as u8);
    push2(out, t.minute);
    out.push(' ' as u8);
    if t.hour < 12 {
        out.push('A' as u8);
    } else {
        out.push('P' as u8);
    }
    out.push('M' as u8);
    proof {
        assert(out@ =~= old(out)@ + fmt12(t));
    }
}

/// One labeled line of the report: the label, the time on the 12-hour
/// clock, a newline.
pub open spec fn report_line(label: Seq<u8>, t: TimeOfDay) -> Seq<u8> {
    label + fmt12(t) + seq![('\n' as u8)]
}

/// The whole report for one day's schedule: a header naming the weekday,
/// the date and the zone label, then the seven time fields, each labeled
/// and on the 12-hour clock.
pub open spec fn report_of(p: PrayerTimeV, zone: Seq<u8>) -> Seq<u8> {
    "Prayer times for ".spec_bytes() + weekday_name(weekday_index(p.date)) + ", ".spec_bytes()
        + iso_date_bytes(p.date) + ", zone ".spec_bytes() + zone + seq![('\n' as u8)]
        + report_line("Imsak:   ".spec_bytes(), p.imsak.time) + report_line(
        "Subuh:   ".spec_bytes(),
        p.fajr.time,
    ) + report_line("Syuruk:  ".spec_bytes(), p.syuruk.time) + report_line(
        "Zohor:   ".spec_bytes(),
        p.dhuhr.time,
    ) + report_line("Asar:    ".spec_bytes(), p.asr.time) + report_line(
        "Maghrib: ".spec_bytes(),
        p.maghrib.time,
    ) + report_line("Isyak:   ".spec_bytes(), p.isha.time)
}

/// Renders one day's schedule for display, exactly as `report_of` says.
#[verifier::rlimit(100)]
pub fn render_report(p: &PrayerTime, zone: &Vec<u8>) -> (r: Vec<u8>)
    requires
        pt_valid(p@),
    ensures
        r@ == report_of(p@, zone@),
{
    let mut out: Vec<u8> = "Prayer times for ".as_bytes_vec();
    let wd = weekday_name_bytes(p.date);
    push_bytes(&mut out, &wd);
    let comma = ", ".as_bytes_vec();
    push_bytes(&mut out, &comma);
    push_iso_date(&mut out, p.date);
    let zlabel = ", zone ".as_bytes_vec();
    push_bytes(&mut out, &zlabel);
    push_bytes(&mut out, zone);
    out.push('\n' as u8);
    let ghost header = "Prayer times for ".spec_bytes() + weekday_name(weekday_index(p@.date))
        + ", ".spec_bytes() + iso_date_bytes(p@.date) + ", zone ".spec_bytes() + zone@ + seq![
        ('\n' as u8),
    ];
    proof {
        assert(out@ =~= header);
    }
    let l1 = "Imsak:   ".as_bytes_vec();
    push_bytes(&mut out, &l1);
    push_fmt12(&mut out, p.imsak.time);
    out.push('\n' as u8);
    let l2 = "Subuh:   ".as_bytes_vec();
    push_bytes(&mut out, &l2);
    push_fmt12(&mut out, p.fajr.time);
    out.push('\n' as u8);
    let l3 = "Syuruk:  ".as_bytes_vec();
    push_bytes(&mut out, &l3);
    push_fmt12(&mut out, p.syuruk.time);
    out.push('\n' as u8);
    proof {
        assert(out@ =~= header + report_line("Imsak:   ".spec_bytes(), p@.imsak.time)
            + report_line("Subuh:   ".spec_bytes(), p@.fajr.time) + report_line(
            "Syuruk:  ".spec_bytes(),
            p@.syuruk.time,
        ));
    }
    let l4 = "Zohor:   ".as_bytes_vec();
    push_bytes(&mut out, &l4);
    push_fmt12(&mut out, p.dhuhr.time);
    out.push('\n' as u8);
    let l5 = "Asar:    ".as_bytes_vec();
    push_bytes(&mut out, &l5);
    push_fmt12(&mut out, p.asr.time);
    out.push('\n' as u8);
    let l6 = "Maghrib: ".as_bytes_vec();
    push_bytes(&mut out, &l6);
    push_fmt12(&mut out, p.maghrib.time);
    out.push('\n' as u8);
    let l7 = "Isyak:   ".as_bytes_vec();
    push_bytes(&mut out, &l7);
    push_fmt12(&mut out, p.isha.time);
    out.push('\n' as u8);
    proof {
        assert(out@ =~= report_of(p@, zone@));
    }
    out
}

} // verus!
