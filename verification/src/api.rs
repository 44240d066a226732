//! The current date of the Hijri calendar, as a remote service reports it.

use std::sync::Arc;
use vstd::prelude::*;
use vstd::string::*;
use crate::i18n::{I18n, TranslationKey};
use crate::text::{decimal, decimal_text, pad_left, padded, parse_u8, parsed_u8};

verus! {

/// A month of the Hijri year in the service's answer.
#[derive(Clone, Debug, PartialEq, Eq)]
pub struct HijriMonth {
    pub number: u8,
    pub ar: String,
}

/// A date of the Hijri calendar in the service's answer.
#[derive(Clone, Debug, PartialEq, Eq)]
pub struct HijriDate {
    pub day: String,
    pub month: HijriMonth,
    pub year: String,
}

#[derive(Clone, Debug, PartialEq, Eq)]
pub struct HijriData {
    pub hijri: HijriDate,
}

/// The service's answer to a date conversion.
#[derive(Clone, Debug, PartialEq, Eq)]
pub struct HijriApiResponse {
    pub data: HijriData,
}

/// The day of the month before the first of the white days.
pub const DAY_BEFORE_FIRST_WHITE_DAY: u8 = 12;

/// The number of the month of Ramadan.
pub const RAMADAN: u8 = 9;

/// The current Hijri date, ready for a message.
#[derive(Clone, Debug, PartialEq, Eq)]
pub struct CurrentDateResponse {
    pub day: String,
    pub day_number: u8,
    pub month: String,
    pub month_number: u8,
    pub year: String,
    pub month_name: String,
    pub month_ar: String,
}

/// The day of the month that a text names; 0 where it names none.
pub open spec fn day_number_of(day: Seq<char>) -> u8 {
    match parsed_u8(vstd::utf8::encode_utf8(day)) {
        Some(n) => n,
        None => 0,
    }
}

impl CurrentDateResponse {
    /// The name of a month in the language in use.
    pub fn map_translated_month(month: u8, i18n: &I18n) -> (r: String)
        ensures
            r@ == i18n.translation(TranslationKey::spec_of_month(month).spec_str()),
    {
        i18n.t(TranslationKey::of_month(month).as_str())
    }

    /// Prepares the service's answer for a message: day and month padded
    /// to two digits, the month's name translated, the day as a number.
    pub fn new(hijri_data: HijriApiResponse, i18n: &I18n) -> (r: CurrentDateResponse)
        ensures
            r.day@ == padded(hijri_data.data.hijri.day@, 2),
            r.day_number == day_number_of(hijri_data.data.hijri.day@),
            r.month@ == padded(decimal_text(hijri_data.data.hijri.month.number), 2),
            r.month_number == hijri_data.data.hijri.month.number,
            r.year == hijri_data.data.hijri.year,
            r.month_name@ == i18n.translation(
                TranslationKey::spec_of_month(hijri_data.data.hijri.month.number).spec_str(),
            ),
            r.month_ar == hijri_data.data.hijri.month.ar,
    {
        let hijri = hijri_data.data.hijri;
        let number = hijri.month.number;
        let day = pad_left(hijri.day.as_str(), 2);
        let day_number = match parse_u8(hijri.day.as_str()) {
            Some(n) => n,
            None => 0,
        };
        let month_text = decimal(number);
        let month = pad_left(month_text.as_str(), 2);
        CurrentDateResponse {
            day,
            day_number,
            month,
            month_number: number,
            year: hijri.year,
            month_name: CurrentDateResponse::map_translated_month(number, i18n),
            month_ar: hijri.month.ar,
        }
    }

    /// The date in one line.
    pub open spec fn spec_describe(&self) -> Seq<char> {
        self.year@ + "-"@ + self.month@ + "-"@ + self.day@ + " ("@ + self.month_name@ + ")"@
    }

    /// The date in one line: year, month and day, and the month's name in
    /// brackets.
    pub fn describe(&self) -> (r: String)
        ensures
            r@ == self.spec_describe(),
    {
        let mut out = self.year.clone();
        out.append("-");
        out.append(self.month.as_str());
        out.append("-");
        out.append(self.day.as_str());
        out.append(" (");
        out.append(self.month_name.as_str());
        out.append(")");
        out
    }

    /// Whether the white days are announced on this date: on the twelfth of
    /// every month but Ramadan.
    pub fn announces_white_days(&self) -> (b: bool)
        ensures
            b == (self.day_number == DAY_BEFORE_FIRST_WHITE_DAY && self.month_number != RAMADAN),
    {
        self.day_number == DAY_BEFORE_FIRST_WHITE_DAY && self.month_number != RAMADAN
    }
}

/// The date at a moment, in Sarajevo, written as day, month and year with
/// hyphens between; `None` for a moment that the calendar cannot hold.
pub uninterp spec fn sarajevo_date_text(now: i64) -> Option<Seq<char>>;

/// The date in Sarajevo at `now` seconds since 1970, from chrono's
/// `DateTime::from_timestamp`, `with_timezone` and `format("%d-%m-%Y")`,
/// with the zone's rules as chrono-tz holds them.
///
/// The contract gives the result a name and claims no more of it.
#[verifier::external_body]
fn sarajevo_date(now: i64) -> (r: Option<String>)
    ensures
        match r {
            Some(text) => sarajevo_date_text(now) == Some(text@),
            None => sarajevo_date_text(now) is None,
        },
{
    match chrono::DateTime::from_timestamp(now, 0) {
        Some(t) => Some(t.with_timezone(&chrono_tz::Europe::Sarajevo).format("%d-%m-%Y").to_string()),
        None => None,
    }
}

/// The service that converts dates to the Hijri calendar.
pub struct HijriApi {
    api_url: String,
    i18n: Arc<I18n>,
}

impl HijriApi {
    /// The address of the service.
    pub closed spec fn url(&self) -> Seq<char> {
        self.api_url@
    }

    /// The messages that answers are translated with.
    pub closed spec fn messages(&self) -> I18n {
        *self.i18n
    }

    pub fn new(i18n: Arc<I18n>) -> (r: HijriApi)
        ensures
            r.url() == "https://api.aladhan.com/v1"@,
            r.messages() == *i18n,
    {
        HijriApi { api_url: String::from_str("https://api.aladhan.com/v1"), i18n }
    }

    /// The messages that answers are translated with.
    pub fn i18n(&self) -> (r: &I18n)
        ensures
            *r == self.messages(),
    {
        &self.i18n
    }

    /// The address that converts a date, written as day, month and year.
    pub fn conversion_url(&self, date: &str) -> (r: String)
        ensures
            r@ == self.url() + "/gToH/"@ + date@,
    {
        let mut out = self.api_url.clone();
        out.append("/gToH/");
        out.append(date);
        out
    }

    /// The address that converts the date at `now` seconds since 1970;
    /// `None` for a moment that the calendar cannot hold.
    pub fn current_date_url(&self, now: i64) -> (r: Option<String>)
        ensures
            match r {
                Some(address) => sarajevo_date_text(now) matches Some(date) && address@
                    == self.url() + "/gToH/"@ + date,
                None => sarajevo_date_text(now) is None,
            },
    {
        match sarajevo_date(now) {
            Some(date) => Some(self.conversion_url(date.as_str())),
            None => None,
        }
    }
}

} // verus!
