use bot_core::api::{CurrentDateResponse, HijriApi, HijriApiResponse, HijriData, HijriDate, HijriMonth};
use bot_core::error::{AppError, AppErrorKind};
use bot_core::i18n::{I18n, Language, Messages, TranslationKey};
use bot_core::text::{decimal, pad_left, parse_u8, placeholder};
use std::sync::Arc;

fn pair(key: &str, text: &str) -> (String, String) {
    (key.to_string(), text.to_string())
}

fn messages() -> I18n {
    I18n::new(vec![
        pair("help", "Pomoć"),
        pair("month_ramadan", "Ramazan"),
        pair("month_rajab", "Redžeb"),
        pair("month_unknown", "Nepoznat"),
        pair("current_hijri_date", "Danas je {day}.{month}.{year}. ({month_name}, {month_ar})"),
        pair("white_days_notification", "Sutra su bijeli dani mjeseca {month} - {month}!"),
        pair("help", "second"),
    ])
}

fn answer(day: &str, month: u8, year: &str) -> HijriApiResponse {
    HijriApiResponse {
        data: HijriData {
            hijri: HijriDate {
                day: day.to_string(),
                month: HijriMonth { number: month, ar: "رَمَضان".to_string() },
                year: year.to_string(),
            },
        },
    }
}

#[test]
fn pad_left_fills_with_zeros() {
    assert_eq!(pad_left("5", 2), "05");
    assert_eq!(pad_left("", 2), "00");
    assert_eq!(pad_left("12", 2), "12");
    assert_eq!(pad_left("123", 2), "123");
    assert_eq!(pad_left("7", 5), "00007");
    assert_eq!(pad_left("7", 0), "7");
}

#[test]
fn pad_left_counts_bytes() {
    assert_eq!(pad_left("ž", 2), "ž");
    assert_eq!(pad_left("ž", 3), "0ž");
    assert_eq!(pad_left("٣", 4), "00٣");
}

#[test]
fn decimal_writes_numbers() {
    assert_eq!(decimal(0), "0");
    assert_eq!(decimal(9), "9");
    assert_eq!(decimal(10), "10");
    assert_eq!(decimal(99), "99");
    assert_eq!(decimal(100), "100");
    assert_eq!(decimal(109), "109");
    assert_eq!(decimal(255), "255");
    for n in 0..=255u8 {
        assert_eq!(decimal(n), n.to_string());
    }
}

#[test]
fn parse_u8_reads_numbers() {
    assert_eq!(parse_u8("0"), Some(0));
    assert_eq!(parse_u8("12"), Some(12));
    assert_eq!(parse_u8("255"), Some(255));
    assert_eq!(parse_u8("+7"), Some(7));
    assert_eq!(parse_u8("007"), Some(7));
    assert_eq!(parse_u8("0000000000000000000000000000255"), Some(255));
}

#[test]
fn parse_u8_refuses_the_rest() {
    assert_eq!(parse_u8(""), None);
    assert_eq!(parse_u8("+"), None);
    assert_eq!(parse_u8("-"), None);
    assert_eq!(parse_u8("-1"), None);
    assert_eq!(parse_u8("++1"), None);
    assert_eq!(parse_u8("1+"), None);
    assert_eq!(parse_u8("256"), None);
    assert_eq!(parse_u8("1000"), None);
    assert_eq!(parse_u8("99999999999999999999999999"), None);
    assert_eq!(parse_u8("2560a"), None);
    assert_eq!(parse_u8("1a"), None);
    assert_eq!(parse_u8(" 1"), None);
    assert_eq!(parse_u8("1 "), None);
    assert_eq!(parse_u8("٣"), None);
    assert_eq!(parse_u8("/"), None);
    assert_eq!(parse_u8(":"), None);
}

#[test]
fn parse_u8_agrees_with_std() {
    for text in ["", "+", "-", "0", "+0", "-0", "9", "10", "255", "256", "+255", "0255", "1a", "a1", "٣", "12 "] {
        assert_eq!(parse_u8(text), text.parse::<u8>().ok());
    }
}

#[test]
fn placeholder_is_the_name_in_braces() {
    assert_eq!(placeholder("day"), "{day}");
    assert_eq!(placeholder(""), "{}");
}

#[test]
fn translation_of_a_known_key() {
    let i18n = messages();
    assert_eq!(i18n.t("month_ramadan"), "Ramazan");
    assert_eq!(i18n.t(TranslationKey::MonthRajab.as_str()), "Redžeb");
}

#[test]
fn later_message_of_a_key_counts() {
    assert_eq!(messages().t("help"), "second");
    let i18n = I18n::new(vec![pair("k", "a"), pair("l", "b"), pair("k", "c"), pair("k", "d")]);
    assert_eq!(i18n.t("k"), "d");
    assert_eq!(i18n.t("l"), "b");
}

#[test]
fn messages_hold_one_text_under_each_key() {
    let mut m = Messages::new();
    assert_eq!(m.get("help"), None);
    m.insert("help".to_string(), "Pomoć".to_string());
    m.insert("date".to_string(), "Datum".to_string());
    assert_eq!(m.get("help"), Some("Pomoć".to_string()));
    assert_eq!(m.get("date"), Some("Datum".to_string()));
    m.insert("help".to_string(), "Upute".to_string());
    assert_eq!(m.get("help"), Some("Upute".to_string()));
    assert_eq!(m.get("date"), Some("Datum".to_string()));
    assert_eq!(m.get("hel"), None);
    assert_eq!(m.get(""), None);
    m.insert(String::new(), "prazno".to_string());
    assert_eq!(m.get(""), Some("prazno".to_string()));
}

#[test]
fn messages_from_pairs_keep_the_later_text() {
    let m = Messages::from_pairs(vec![pair("a", "1"), pair("b", "2"), pair("a", "3")]);
    assert_eq!(m.get("a"), Some("3".to_string()));
    assert_eq!(m.get("b"), Some("2".to_string()));
    assert_eq!(m.get("c"), None);
    assert_eq!(Messages::from_pairs(Vec::new()).get("a"), None);
}

#[test]
fn unknown_key_translates_to_itself() {
    let i18n = messages();
    assert_eq!(i18n.t("welcome_message"), "welcome_message");
    assert_eq!(i18n.t(""), "");
    assert_eq!(I18n::new(Vec::new()).t("help"), "help");
}

#[test]
fn set_language_keeps_the_messages() {
    let mut i18n = messages();
    i18n.set_language(Language::Ba);
    assert_eq!(i18n.t("month_ramadan"), "Ramazan");
}

#[test]
fn arguments_replace_their_placeholders() {
    let i18n = messages();
    let text = i18n.t_with_args(
        "current_hijri_date",
        vec![
            pair("day", "05"),
            pair("month", "09"),
            pair("year", "1446"),
            pair("month_name", "Ramazan"),
            pair("month_ar", "رَمَضان"),
        ],
    );
    assert_eq!(text, "Danas je 05.09.1446. (Ramazan, رَمَضان)");
}

#[test]
fn every_occurrence_is_replaced() {
    let i18n = messages();
    assert_eq!(
        i18n.t_with_args("white_days_notification", vec![pair("month", "Redžeb")]),
        "Sutra su bijeli dani mjeseca Redžeb - Redžeb!"
    );
}

#[test]
fn arguments_are_applied_in_order() {
    let i18n = I18n::new(vec![pair("k", "{a}{b}")]);
    assert_eq!(i18n.t_with_args("k", vec![pair("a", "{b}"), pair("b", "x")]), "xx");
    assert_eq!(i18n.t_with_args("k", vec![pair("b", "x"), pair("a", "{b}")]), "{b}x");
    assert_eq!(i18n.t_with_args("k", Vec::new()), "{a}{b}");
    assert_eq!(i18n.t_with_args("k", vec![pair("c", "x")]), "{a}{b}");
    assert_eq!(i18n.t_with_args("missing {a}", vec![pair("a", "1")]), "missing 1");
}

#[test]
fn matches_do_not_overlap() {
    let i18n = I18n::new(vec![pair("k", "{{}{}}{}"), pair("m", "{{a}}")]);
    assert_eq!(i18n.t_with_args("k", vec![pair("", "-")]), "{--}-");
    assert_eq!(i18n.t_with_args("m", vec![pair("a", "b")]), "{b}");
}

#[test]
fn translation_keys() {
    assert_eq!(TranslationKey::Help.as_str(), "help");
    assert_eq!(TranslationKey::CurrentHijriDate.as_str(), "current_hijri_date");
    assert_eq!(TranslationKey::WelcomeMessage.as_str(), "welcome_message");
    assert_eq!(TranslationKey::WhiteDaysNotification.as_str(), "white_days_notification");
    assert_eq!(TranslationKey::ErrorGeneral.as_str(), "error_general");
    assert_eq!(
        TranslationKey::ErrorScheduleWhiteDaysMessage.as_str(),
        "error_schedule_white_days_message"
    );
    assert_eq!(TranslationKey::ErrorCurrentDate.as_str(), "error_current_date");
    assert_eq!(TranslationKey::MonthUnknown.as_str(), "month_unknown");
}

#[test]
fn month_keys() {
    let names = [
        "month_muharram",
        "month_safar",
        "month_rabi_al_awwal",
        "month_rabi_al_thani",
        "month_jumada_al_awwal",
        "month_jumada_al_thani",
        "month_rajab",
        "month_shaaban",
        "month_ramadan",
        "month_shawwal",
        "month_dhu_al_qi_dah",
        "month_dhu_al_hijjah",
    ];
    for (i, name) in names.iter().enumerate() {
        assert_eq!(TranslationKey::of_month(i as u8 + 1).as_str(), *name);
    }
    assert_eq!(TranslationKey::of_month(0), TranslationKey::MonthUnknown);
    assert_eq!(TranslationKey::of_month(13), TranslationKey::MonthUnknown);
    assert_eq!(TranslationKey::of_month(255), TranslationKey::MonthUnknown);
}

#[test]
fn month_names_are_translated() {
    let i18n = messages();
    assert_eq!(CurrentDateResponse::map_translated_month(9, &i18n), "Ramazan");
    assert_eq!(CurrentDateResponse::map_translated_month(7, &i18n), "Redžeb");
    assert_eq!(CurrentDateResponse::map_translated_month(1, &i18n), "month_muharram");
    assert_eq!(CurrentDateResponse::map_translated_month(0, &i18n), "Nepoznat");
    assert_eq!(CurrentDateResponse::map_translated_month(13, &i18n), "Nepoznat");
}

#[test]
fn current_date_is_prepared() {
    let date = CurrentDateResponse::new(answer("5", 9, "1446"), &messages());
    assert_eq!(
        date,
        CurrentDateResponse {
            day: "05".to_string(),
            day_number: 5,
            month: "09".to_string(),
            month_number: 9,
            year: "1446".to_string(),
            month_name: "Ramazan".to_string(),
            month_ar: "رَمَضان".to_string(),
        }
    );
    assert_eq!(date.describe(), "1446-09-05 (Ramazan)");
}

#[test]
fn current_date_with_two_digits_and_odd_days() {
    let date = CurrentDateResponse::new(answer("12", 12, "1446"), &messages());
    assert_eq!(date.day, "12");
    assert_eq!(date.day_number, 12);
    assert_eq!(date.month, "12");
    assert_eq!(date.month_name, "month_dhu_al_hijjah");
    let date = CurrentDateResponse::new(answer("x", 200, ""), &messages());
    assert_eq!(date.day, "0x");
    assert_eq!(date.day_number, 0);
    assert_eq!(date.month, "200");
    assert_eq!(date.month_number, 200);
    assert_eq!(date.month_name, "Nepoznat");
    assert_eq!(date.describe(), "-200-0x (Nepoznat)");
    let date = CurrentDateResponse::new(answer("300", 1, "1"), &messages());
    assert_eq!(date.day_number, 0);
}

#[test]
fn white_days_are_announced_on_the_twelfth() {
    let i18n = messages();
    assert!(CurrentDateResponse::new(answer("12", 7, "1446"), &i18n).announces_white_days());
    assert!(!CurrentDateResponse::new(answer("12", 9, "1446"), &i18n).announces_white_days());
    assert!(!CurrentDateResponse::new(answer("11", 7, "1446"), &i18n).announces_white_days());
    assert!(!CurrentDateResponse::new(answer("13", 7, "1446"), &i18n).announces_white_days());
    assert!(CurrentDateResponse::new(answer("+12", 1, "1446"), &i18n).announces_white_days());
}

#[test]
fn conversion_address() {
    let api = HijriApi::new(Arc::new(messages()));
    assert_eq!(api.conversion_url("02-07-2024"), "https://api.aladhan.com/v1/gToH/02-07-2024");
    assert_eq!(api.i18n().t("month_ramadan"), "Ramazan");
}

#[test]
fn current_date_address_is_in_sarajevo_time() {
    let api = HijriApi::new(Arc::new(messages()));
    assert_eq!(
        api.current_date_url(1_719_871_199),
        Some("https://api.aladhan.com/v1/gToH/01-07-2024".to_string())
    );
    assert_eq!(
        api.current_date_url(1_719_871_200),
        Some("https://api.aladhan.com/v1/gToH/02-07-2024".to_string())
    );
    assert_eq!(
        api.current_date_url(1_705_361_400),
        Some("https://api.aladhan.com/v1/gToH/16-01-2024".to_string())
    );
    assert_eq!(
        api.current_date_url(0),
        Some("https://api.aladhan.com/v1/gToH/01-01-1970".to_string())
    );
}

#[test]
fn moments_outside_the_calendar_have_no_address() {
    let api = HijriApi::new(Arc::new(messages()));
    assert_eq!(api.current_date_url(i64::MAX), None);
    assert_eq!(api.current_date_url(i64::MIN), None);
}

#[test]
fn error_kinds_have_messages() {
    assert_eq!(AppErrorKind::SchedulerInitialization.message(), "Failed to initialize the scheduler");
    assert_eq!(AppErrorKind::ScheduleDailyHadithJob.message(), "Failed to schedule daily hadith job");
    assert_eq!(
        AppErrorKind::GetRandomHadithFromDb.message(),
        "Failed to get random hadith from database"
    );
    assert_eq!(AppErrorKind::MigrationError.message(), "Database migration error");
    assert_eq!(AppErrorKind::DatabaseConnectionError.message(), "Failed to connect to the database");
}

#[test]
fn app_error_in_one_line() {
    let error = AppError::new("timeout".to_string(), "error_current_date");
    assert_eq!(error.actual_error, "timeout");
    assert_eq!(error.message_translation_key, "error_current_date");
    assert_eq!(error.describe(), "AppError: timeout, Translation Key: error_current_date");
}
