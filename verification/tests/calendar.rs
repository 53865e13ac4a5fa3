use wifi_hello::calendar::{date_label, format_date, month_name};

fn label(timestamp: i64) -> Option<String> {
    date_label(timestamp).map(|l| String::from(l.as_str()))
}

#[test]
fn month_names_of_the_year() {
    let names = [
        "Jan", "Feb", "Mar", "Apr", "May", "Jun", "Jul", "Aug", "Sep", "Oct", "Nov", "Dec",
    ];
    for (i, name) in names.iter().enumerate() {
        assert_eq!(month_name(i as u32 + 1), *name);
    }
}

#[test]
fn month_name_out_of_range_is_err() {
    assert_eq!(month_name(0), "Err");
    assert_eq!(month_name(13), "Err");
    assert_eq!(month_name(u32::MAX), "Err");
}

#[test]
fn format_date_pads_day_and_year() {
    assert_eq!(format_date(5, 3, 2024).as_str(), "05 Mar 2024");
    assert_eq!(format_date(14, 11, 2023).as_str(), "14 Nov 2023");
    assert_eq!(format_date(31, 12, 999).as_str(), "31 Dec 0999");
    assert_eq!(format_date(1, 1, 0).as_str(), "01 Jan 0000");
    assert_eq!(format_date(9, 7, 12345).as_str(), "09 Jul 12345");
}

#[test]
fn format_date_negative_years_keep_the_sign_in_the_width() {
    assert_eq!(format_date(5, 3, -7).as_str(), "05 Mar -007");
    assert_eq!(format_date(5, 3, -123).as_str(), "05 Mar -123");
    assert_eq!(format_date(5, 3, -1234).as_str(), "05 Mar -1234");
}

#[test]
fn format_date_matches_std_formatting() {
    let cases: [(u32, u32, i32); 6] = [
        (0, 1, 1),
        (123, 13, -262143),
        (u32::MAX, 0, i32::MIN),
        (u32::MAX, 12, i32::MAX),
        (10, 10, 10),
        (7, 2, -1),
    ];
    for (d, m, y) in cases {
        let expected = format!("{:02} {:02} {:04}", d, month_name(m), y);
        assert_eq!(format_date(d, m, y).as_str(), expected);
    }
    assert_eq!(
        format_date(u32::MAX, 0, i32::MIN).as_str(),
        "4294967295 Err -2147483648"
    );
}

#[test]
fn date_label_of_known_timestamps() {
    assert_eq!(label(0).as_deref(), Some("01 Jan 1970"));
    assert_eq!(label(-1).as_deref(), Some("31 Dec 1969"));
    assert_eq!(label(1_700_000_000).as_deref(), Some("14 Nov 2023"));
    assert_eq!(label(1_431_648_000).as_deref(), Some("15 May 2015"));
    assert_eq!(label(951_782_400).as_deref(), Some("29 Feb 2000"));
    assert_eq!(label(951_868_800).as_deref(), Some("01 Mar 2000"));
    assert_eq!(label(-62_135_596_800).as_deref(), Some("01 Jan 0001"));
    assert_eq!(label(-62_135_596_801).as_deref(), Some("31 Dec 0000"));
}

#[test]
fn date_label_depends_only_on_the_day() {
    let first = 1_699_920_000;
    let last = 1_700_006_399;
    assert_eq!(label(first), label(last));
    assert_eq!(label(first), label(1_700_000_000));
    assert_eq!(label(last + 1).as_deref(), Some("15 Nov 2023"));
    assert_eq!(label(first - 1).as_deref(), Some("13 Nov 2023"));
}

#[test]
fn date_label_range_ends_where_chrono_stops() {
    let first_day: i64 = -96_465_292;
    let last_day: i64 = 95_026_236;
    assert_eq!(label(first_day * 86_400).as_deref(), Some("01 Jan -262143"));
    assert_eq!(label(first_day * 86_400 - 1), None);
    assert_eq!(label(last_day * 86_400 + 86_399).as_deref(), Some("31 Dec 262142"));
    assert_eq!(label((last_day + 1) * 86_400), None);
    assert_eq!(label(i64::MAX), None);
    assert_eq!(label(i64::MIN), None);
}
