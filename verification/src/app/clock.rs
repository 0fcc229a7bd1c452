use vstd::prelude::*;
use vstd::string::*;
use crate::utils::i18n::{gettext, no_nul};
use crate::utils::text::{decimal, decimal_spec, replace_all, replace_str, two_digits, two_digits_spec};

verus! {

/// The message that names a weekday, counted from Monday (0) to Sunday.
pub open spec fn weekday_msgid_spec(d: u32) -> Seq<char> {
    if d == 0 {
        "Monday"@
    } else if d == 1 {
        "Tuesday"@
    } else if d == 2 {
        "Wednesday"@
    } else if d == 3 {
        "Thursday"@
    } else if d == 4 {
        "Friday"@
    } else if d == 5 {
        "Saturday"@
    } else {
        "Sunday"@
    }
}

/// The message that names a month (1 to 12); none for other numbers.
pub open spec fn month_msgid_spec(m: u32) -> Option<Seq<char>> {
    if m == 1 {
        Some("January"@)
    } else if m == 2 {
        Some("February"@)
    } else if m == 3 {
        Some("March"@)
    } else if m == 4 {
        Some("April"@)
    } else if m == 5 {
        Some("May"@)
    } else if m == 6 {
        Some("June"@)
    } else if m == 7 {
        Some("July"@)
    } else if m == 8 {
        Some("August"@)
    } else if m == 9 {
        Some("September"@)
    } else if m == 10 {
        Some("October"@)
    } else if m == 11 {
        Some("November"@)
    } else if m == 12 {
        Some("December"@)
    } else {
        None
    }
}

/// The message that is the date format.
pub open spec fn date_format_msgid_spec() -> Seq<char> {
    "{weekday}, {month} {day}"@
}

/// The date line: the format with `{weekday}`, then `{month}`, then
/// `{day}` replaced, each in the text the previous replacement left.
pub open spec fn date_line(fmt: Seq<char>, weekday: Seq<char>, month: Seq<char>, day: Seq<char>) -> Seq<char> {
    replace_all(replace_all(replace_all(fmt, "{weekday}"@, weekday), "{month}"@, month), "{day}"@, day)
}

/// Law: the weekday messages, counted from Monday (0), name the days of
/// the week in order.
pub proof fn lemma_weekday_names()
    ensures
        weekday_msgid_spec(0) == "Monday"@,
        weekday_msgid_spec(1) == "Tuesday"@,
        weekday_msgid_spec(2) == "Wednesday"@,
        weekday_msgid_spec(3) == "Thursday"@,
        weekday_msgid_spec(4) == "Friday"@,
        weekday_msgid_spec(5) == "Saturday"@,
        weekday_msgid_spec(6) == "Sunday"@,
{
}

/// Law: the month messages name the months of the year in order, January
/// being month 1; no other number names a month.
pub proof fn lemma_month_names(m: u32)
    ensures
        month_msgid_spec(1) == Some("January"@),
        month_msgid_spec(2) == Some("February"@),
        month_msgid_spec(3) == Some("March"@),
        month_msgid_spec(4) == Some("April"@),
        month_msgid_spec(5) == Some("May"@),
        month_msgid_spec(6) == Some("June"@),
        month_msgid_spec(7) == Some("July"@),
        month_msgid_spec(8) == Some("August"@),
        month_msgid_spec(9) == Some("September"@),
        month_msgid_spec(10) == Some("October"@),
        month_msgid_spec(11) == Some("November"@),
        month_msgid_spec(12) == Some("December"@),
        (m < 1 || m > 12) ==> month_msgid_spec(m) is None,
{
}

/// The texts of the clock: hours, minutes and the date line.
pub struct ClockTexts {
    pub hours: String,
    pub minutes: String,
    pub date: String,
}

/// Manages the real-time clock displayed on the greeter interface.
pub struct Clock;

impl Clock {
    /// The message naming a weekday counted from Monday (0).
    pub fn weekday_msgid(days_from_monday: u32) -> (r: &'static str)
        requires
            days_from_monday < 7,
        ensures
            r@ == weekday_msgid_spec(days_from_monday),
            no_nul(r@),
    {
        if days_from_monday == 0 {
            proof {
                reveal_strlit("Monday");
            }
            "Monday"
        } else if days_from_monday == 1 {
            proof {
                reveal_strlit("Tuesday");
            }
            "Tuesday"
        } else if days_from_monday == 2 {
            proof {
                reveal_strlit("Wednesday");
            }
            "Wednesday"
        } else if days_from_monday == 3 {
            proof {
                reveal_strlit("Thursday");
            }
            "Thursday"
        } else if days_from_monday == 4 {
            proof {
                reveal_strlit("Friday");
            }
            "Friday"
        } else if days_from_monday == 5 {
            proof {
                reveal_strlit("Saturday");
            }
            "Saturday"
        } else {
            proof {
                reveal_strlit("Sunday");
            }
            "Sunday"
        }
    }

    /// The message naming a month (1 to 12).
    pub fn month_msgid(month: u32) -> (r: Option<&'static str>)
        ensures
            match month_msgid_spec(month) {
                Some(m) => r matches Some(x) && x@ == m && no_nul(x@),
                None => r is None,
            },
    {
        if month == 1 {
            proof {
                reveal_strlit("January");
            }
            Some("January")
        } else if month == 2 {
            proof {
                reveal_strlit("February");
            }
            Some("February")
        } else if month == 3 {
            proof {
                reveal_strlit("March");
            }
            Some("March")
        } else if month == 4 {
            proof {
                reveal_strlit("April");
            }
            Some("April")
        } else if month == 5 {
            proof {
                reveal_strlit("May");
            }
            Some("May")
        } else if month == 6 {
            proof {
                reveal_strlit("June");
            }
            Some("June")
        } else if month == 7 {
            proof {
                reveal_strlit("July");
            }
            Some("July")
        } else if month == 8 {
            proof {
                reveal_strlit("August");
            }
            Some("August")
        } else if month == 9 {
            proof {
                reveal_strlit("September");
            }
            Some("September")
        } else if month == 10 {
            proof {
                reveal_strlit("October");
            }
            Some("October")
        } else if month == 11 {
            proof {
                reveal_strlit("November");
            }
            Some("November")
        } else if month == 12 {
            proof {
                reveal_strlit("December");
            }
            Some("December")
        } else {
            None
        }
    }

    /// The message that is the date format: `{weekday}, {month} {day}`.
    pub fn date_format_msgid() -> (r: &'static str)
        ensures
            r@ == date_format_msgid_spec(),
            no_nul(r@),
    {
        proof {
            reveal_strlit("{weekday}, {month} {day}");
        }
        "{weekday}, {month} {day}"
    }

    /// Fills the date format with the weekday, month and day texts.
    pub fn format_date(fmt: &str, weekday: &str, month: &str, day: &str) -> (r: String)
        ensures
            r@ == date_line(fmt@, weekday@, month@, day@),
    {
        proof {
            reveal_strlit("{weekday}");
            reveal_strlit("{month}");
            reveal_strlit("{day}");
        }
        let a = replace_str(fmt, "{weekday}", weekday);
        let b = replace_str(a.as_str(), "{month}", month);
        replace_str(b.as_str(), "{day}", day)
    }

    /// The clock texts for a local time, given the translated weekday
    /// name, month name and date format: hours and minutes in two digits,
    /// and the date format filled with the weekday, the month and the day
    /// without leading zero.
    pub fn texts_from(
        hour: u32,
        minute: u32,
        day: u32,
        weekday_text: &str,
        month_text: &str,
        format_text: &str,
    ) -> (r: ClockTexts)
        requires
            hour < 24,
            minute < 60,
        ensures
            r.hours@ == two_digits_spec(hour as nat),
            r.minutes@ == two_digits_spec(minute as nat),
            r.date@ == date_line(format_text@, weekday_text@, month_text@, decimal_spec(day as nat)),
    {
        let hours = two_digits(hour);
        let minutes = two_digits(minute);
        let day_text = decimal(day as u64);
        let date = Clock::format_date(format_text, weekday_text, month_text, day_text.as_str());
        ClockTexts { hours, minutes, date }
    }

    /// The clock texts for a local time, with the weekday name, the month
    /// name and the date format looked up with `lookup`: the texts it gives
    /// for `weekday_msgid(days_from_monday)`, `month_msgid(month)` (no
    /// lookup and no text for a month outside 1 to 12) and
    /// `date_format_msgid()`, handed to `texts_from`.
    pub fn texts_with<F: Fn(&'static str) -> String>(
        hour: u32,
        minute: u32,
        days_from_monday: u32,
        month: u32,
        day: u32,
        lookup: F,
    ) -> (r: ClockTexts)
        requires
            hour < 24,
            minute < 60,
            days_from_monday < 7,
            forall|s: &'static str| no_nul(s@) ==> call_requires(lookup, (s,)),
        ensures
            r.hours@ == two_digits_spec(hour as nat),
            r.minutes@ == two_digits_spec(minute as nat),
            match month_msgid_spec(month) {
                Some(mm) => exists|wid: &'static str, w: String, mid: &'static str, m: String, fid: &'static str, f: String|
                    #![trigger call_ensures(lookup, (wid,), w), call_ensures(lookup, (mid,), m), call_ensures(lookup, (fid,), f)]
                    {
                        &&& wid@ == weekday_msgid_spec(days_from_monday)
                        &&& call_ensures(lookup, (wid,), w)
                        &&& mid@ == mm
                        &&& call_ensures(lookup, (mid,), m)
                        &&& fid@ == date_format_msgid_spec()
                        &&& call_ensures(lookup, (fid,), f)
                        &&& r.date@ == date_line(f@, w@, m@, decimal_spec(day as nat))
                    },
                None => exists|wid: &'static str, w: String, fid: &'static str, f: String|
                    #![trigger call_ensures(lookup, (wid,), w), call_ensures(lookup, (fid,), f)]
                    {
                        &&& wid@ == weekday_msgid_spec(days_from_monday)
                        &&& call_ensures(lookup, (wid,), w)
                        &&& fid@ == date_format_msgid_spec()
                        &&& call_ensures(lookup, (fid,), f)
                        &&& r.date@ == date_line(f@, w@, Seq::empty(), decimal_spec(day as nat))
                    },
            },
    {
        let wid = Clock::weekday_msgid(days_from_monday);
        let weekday = lookup(wid);
        let month_id = Clock::month_msgid(month);
        let month_name = match month_id {
            Some(mid) => lookup(mid),
            None => String::new(),
        };
        let fid = Clock::date_format_msgid();
        let date_format = lookup(fid);
        let r = Clock::texts_from(hour, minute, day, weekday.as_str(), month_name.as_str(), date_format.as_str());
        proof {
            assert(call_ensures(lookup, (wid,), weekday));
            assert(call_ensures(lookup, (fid,), date_format));
            if let Some(mid) = month_id {
                assert(call_ensures(lookup, (mid,), month_name));
            }
        }
        r
    }

    /// The clock texts for a local time, with the weekday name, the month
    /// name and the date format looked up in the message catalogue
    /// (`texts_with` and `gettext`).
    pub fn texts(hour: u32, minute: u32, days_from_monday: u32, month: u32, day: u32) -> (r: ClockTexts)
        requires
            hour < 24,
            minute < 60,
            days_from_monday < 7,
        ensures
            r.hours@ == two_digits_spec(hour as nat),
            r.minutes@ == two_digits_spec(minute as nat),
            exists|f: Seq<char>, w: Seq<char>, m: Seq<char>|
                r.date@ == date_line(f, w, m, decimal_spec(day as nat)) && (month_msgid_spec(month) is None ==> m
                    == Seq::<char>::empty()),
    {
        let lookup = |s: &'static str| -> (t: String)
            requires
                no_nul(s@),
            { gettext(s) };
        Clock::texts_with(hour, minute, days_from_monday, month, day, lookup)
    }
}

} // verus!
