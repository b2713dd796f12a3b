//! Clock tokens for log file templates: the UTC date and time of a Unix
//! second, written with fixed-width zero-padded fields.

use crate::logfmt::{civil_from_days, civil_spec, pad2, pad3, push_pad2, push_pad3, TemplateClock};
use vstd::prelude::*;
use vstd::string::*;

verus! {

/// A year written with at least four digits, zero-padded on the left.
pub open spec fn pad_year(y: nat) -> Seq<char> {
    if y < 10 {
        "000"@ + crate::text::dec(y)
    } else if y < 100 {
        "00"@ + crate::text::dec(y)
    } else if y < 1000 {
        "0"@ + crate::text::dec(y)
    } else {
        crate::text::dec(y)
    }
}

/// `YYYY-MM-DD` of the UTC day that Unix second `secs` falls in.
pub open spec fn clock_date(secs: u64) -> Seq<char> {
    let c = civil_spec(secs / 86_400);
    pad_year(c.0 as nat) + "-"@ + pad2(c.1 as nat) + "-"@ + pad2(c.2 as nat)
}

/// `HHMMSS` (UTC) of Unix second `secs`.
pub open spec fn clock_time(secs: u64) -> Seq<char> {
    let sd = secs % 86_400;
    pad2((sd / 3_600) as nat) + pad2(((sd % 3_600) / 60) as nat) + pad2((sd % 60) as nat)
}

/// `HH:MM:SS.mmm` (UTC) of Unix second `secs` and `millis` past it.
pub open spec fn clock_ut(secs: u64, millis: u64) -> Seq<char> {
    let sd = secs % 86_400;
    pad2((sd / 3_600) as nat) + ":"@ + pad2(((sd % 3_600) / 60) as nat) + ":"@ + pad2(
        (sd % 60) as nat,
    ) + "."@ + pad3(millis as nat)
}

/// Template clock tokens for Unix second `secs` and `millis` past it.
pub fn template_clock(secs: u64, millis: u64) -> (r: TemplateClock)
    requires
        millis < 1000,
    ensures
        r.date@ == clock_date(secs),
        r.time@ == clock_time(secs),
        r.datetime@ == clock_date(secs) + "T"@ + clock_time(secs),
        r.ut@ == clock_ut(secs, millis),
{
    proof {
        reveal_strlit("000");
        reveal_strlit("00");
        reveal_strlit("0");
        reveal_strlit("-");
        reveal_strlit("T");
        reveal_strlit(":");
        reveal_strlit(".");
    }
    let days = secs / 86_400;
    let sd = secs % 86_400;
    let (year, month, day) = civil_from_days(days);
    let mut date = String::new();
    if year < 10 {
        date.append("000");
    } else if year < 100 {
        date.append("00");
    } else if year < 1000 {
        date.append("0");
    }
    crate::text::push_dec(&mut date, year);
    date.append("-");
    push_pad2(&mut date, month);
    date.append("-");
    push_pad2(&mut date, day);
    assert(date@ =~= clock_date(secs));
    let mut time = String::new();
    push_pad2(&mut time, sd / 3_600);
    push_pad2(&mut time, (sd % 3_600) / 60);
    push_pad2(&mut time, sd % 60);
    assert(time@ =~= clock_time(secs));
    let mut datetime = date.clone();
    datetime.append("T");
    datetime.append(time.as_str());
    let mut ut = String::new();
    push_pad2(&mut ut, sd / 3_600);
    ut.append(":");
    push_pad2(&mut ut, (sd % 3_600) / 60);
    ut.append(":");
    push_pad2(&mut ut, sd % 60);
    ut.append(".");
    push_pad3(&mut ut, millis);
    assert(ut@ =~= clock_ut(secs, millis));
    TemplateClock { date, time, datetime, ut }
}


} // verus!
