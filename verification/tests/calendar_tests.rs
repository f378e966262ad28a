use cell_format::calendar::{DateTime, MAX_YEAR, MIN_YEAR};
use cell_format::era_jp::{
    get_abbreviation_name, get_era, get_name, get_short_name, get_year, Era,
};
use cell_format::text::{
    from_chars, push_decimal, push_padded_decimal, push_signed_decimal, to_chars,
};

fn day(year: i32, month: u32, day: u32) -> DateTime {
    DateTime::new(year, month, day, 0, 0, 0).unwrap()
}

#[test]
fn fields_come_back_as_given() {
    let dt = DateTime::new(2024, 3, 5, 9, 5, 3).unwrap();
    assert_eq!(dt.year(), 2024);
    assert_eq!(dt.month(), 3);
    assert_eq!(dt.day(), 5);
    assert_eq!(dt.hour(), 9);
    assert_eq!(dt.minute(), 5);
    assert_eq!(dt.second(), 3);
}

#[test]
fn days_that_do_not_exist_are_refused() {
    assert!(DateTime::new(2024, 2, 29, 0, 0, 0).is_some());
    assert!(DateTime::new(2023, 2, 29, 0, 0, 0).is_none());
    assert!(DateTime::new(1900, 2, 29, 0, 0, 0).is_none());
    assert!(DateTime::new(2000, 2, 29, 0, 0, 0).is_some());
    assert!(DateTime::new(-4, 2, 29, 0, 0, 0).is_some());
    assert!(DateTime::new(2023, 4, 31, 0, 0, 0).is_none());
    assert!(DateTime::new(2023, 4, 30, 0, 0, 0).is_some());
    assert!(DateTime::new(2023, 12, 31, 0, 0, 0).is_some());
    assert!(DateTime::new(2023, 0, 1, 0, 0, 0).is_none());
    assert!(DateTime::new(2023, 13, 1, 0, 0, 0).is_none());
    assert!(DateTime::new(2023, 1, 0, 0, 0, 0).is_none());
    assert!(DateTime::new(2023, 1, 32, 0, 0, 0).is_none());
}

#[test]
fn times_that_do_not_exist_are_refused() {
    assert!(DateTime::new(2023, 1, 1, 23, 59, 59).is_some());
    assert!(DateTime::new(2023, 1, 1, 24, 0, 0).is_none());
    assert!(DateTime::new(2023, 1, 1, 0, 60, 0).is_none());
    assert!(DateTime::new(2023, 1, 1, 0, 0, 60).is_none());
}

#[test]
fn years_out_of_range_are_refused() {
    assert_eq!(MIN_YEAR, -262143);
    assert_eq!(MAX_YEAR, 262142);
    assert!(DateTime::new(MAX_YEAR, 12, 31, 23, 59, 59).is_some());
    assert!(DateTime::new(MAX_YEAR + 1, 1, 1, 0, 0, 0).is_none());
    assert!(DateTime::new(MIN_YEAR, 1, 1, 0, 0, 0).is_some());
    assert!(DateTime::new(MIN_YEAR - 1, 12, 31, 0, 0, 0).is_none());
}

#[test]
fn every_accepted_moment_can_be_rendered() {
    let days = [
        (MIN_YEAR, 1, 1),
        (MAX_YEAR, 12, 31),
        (-4, 2, 29),
        (0, 1, 1),
        (2000, 2, 29),
        (2024, 12, 31),
    ];
    for (y, m, d) in days {
        let dt = DateTime::new(y, m, d, 23, 59, 59).unwrap();
        assert_eq!(dt.format("plain text"), Some(String::from("plain text")));
        assert!(dt.format("%Y-%m-%d %H:%M:%S").is_some());
    }
}

#[test]
fn engine_renders_directives() {
    let dt = DateTime::new(2024, 3, 5, 9, 5, 3).unwrap();
    assert_eq!(dt.format("%Y"), Some(String::from("2024")));
    assert_eq!(dt.format("%Y-%m-%d"), Some(String::from("2024-03-05")));
    assert_eq!(dt.format("%-m/%-d %-H:%-M:%-S"), Some(String::from("3/5 9:5:3")));
    assert_eq!(dt.format("%b %B %a %A"), Some(String::from("Mar March Tue Tuesday")));
    assert_eq!(dt.format("%%"), Some(String::from("%")));
}

#[test]
fn engine_returns_plain_text_unchanged() {
    let dt = DateTime::new(2024, 3, 5, 9, 5, 3).unwrap();
    assert_eq!(dt.format(""), Some(String::from("")));
    assert_eq!(dt.format("令和6年 3月\t5日"), Some(String::from("令和6年 3月\t5日")));
    assert_eq!(dt.format("  a  b  "), Some(String::from("  a  b  ")));
}

#[test]
fn engine_rejects_unknown_directives() {
    let dt = DateTime::new(2024, 3, 5, 9, 5, 3).unwrap();
    assert_eq!(dt.format("%"), None);
    assert_eq!(dt.format("100%"), None);
    assert_eq!(dt.format("%Q"), None);
    assert_eq!(dt.format("%Y %"), None);
}

#[test]
fn eras_begin_on_their_first_day() {
    assert_eq!(get_era(&day(2019, 5, 1)), Some(Era::Reiwa));
    assert_eq!(get_era(&day(2019, 4, 30)), Some(Era::Heisei));
    assert_eq!(get_era(&day(1989, 1, 8)), Some(Era::Heisei));
    assert_eq!(get_era(&day(1989, 1, 7)), Some(Era::Showa));
    assert_eq!(get_era(&day(1926, 12, 25)), Some(Era::Showa));
    assert_eq!(get_era(&day(1926, 12, 24)), Some(Era::Taisho));
    assert_eq!(get_era(&day(1912, 7, 30)), Some(Era::Taisho));
    assert_eq!(get_era(&day(1912, 7, 29)), Some(Era::Meiji));
    assert_eq!(get_era(&day(1868, 1, 25)), Some(Era::Meiji));
    assert_eq!(get_era(&day(1868, 1, 24)), None);
    assert_eq!(get_era(&day(2100, 1, 1)), Some(Era::Reiwa));
}

#[test]
fn years_are_counted_from_one() {
    assert_eq!(get_year(&day(2019, 5, 1)), 1);
    assert_eq!(get_year(&day(2024, 3, 5)), 6);
    assert_eq!(get_year(&day(2019, 4, 30)), 31);
    assert_eq!(get_year(&day(1989, 1, 8)), 1);
    assert_eq!(get_year(&day(1989, 1, 7)), 64);
    assert_eq!(get_year(&day(1926, 12, 25)), 1);
    assert_eq!(get_year(&day(1926, 12, 24)), 15);
    assert_eq!(get_year(&day(1912, 7, 30)), 1);
    assert_eq!(get_year(&day(1912, 7, 29)), 45);
    assert_eq!(get_year(&day(1868, 1, 25)), 1);
    assert_eq!(get_year(&day(1868, 1, 24)), 1868);
    assert_eq!(get_year(&day(-10, 1, 1)), -10);
}

#[test]
fn era_names_in_three_forms() {
    let reiwa = day(2024, 3, 5);
    assert_eq!(get_abbreviation_name(&reiwa), "R");
    assert_eq!(get_short_name(&reiwa), "令");
    assert_eq!(get_name(&reiwa), "令和");
    let heisei = day(2000, 1, 1);
    assert_eq!(get_abbreviation_name(&heisei), "H");
    assert_eq!(get_short_name(&heisei), "平");
    assert_eq!(get_name(&heisei), "平成");
    let showa = day(1950, 1, 1);
    assert_eq!(get_abbreviation_name(&showa), "S");
    assert_eq!(get_short_name(&showa), "昭");
    assert_eq!(get_name(&showa), "昭和");
    let taisho = day(1920, 1, 1);
    assert_eq!(get_abbreviation_name(&taisho), "T");
    assert_eq!(get_short_name(&taisho), "大");
    assert_eq!(get_name(&taisho), "大正");
    let meiji = day(1900, 1, 1);
    assert_eq!(get_abbreviation_name(&meiji), "M");
    assert_eq!(get_short_name(&meiji), "明");
    assert_eq!(get_name(&meiji), "明治");
    let before = day(1700, 1, 1);
    assert_eq!(get_abbreviation_name(&before), "");
    assert_eq!(get_short_name(&before), "");
    assert_eq!(get_name(&before), "");
}

#[test]
fn numbers_in_decimal() {
    let mut out = String::from("n=");
    push_decimal(&mut out, 0);
    assert_eq!(out, "n=0");
    push_decimal(&mut out, 7);
    push_decimal(&mut out, 10);
    push_decimal(&mut out, 4294967295);
    assert_eq!(out, "n=07104294967295");
}

#[test]
fn signed_numbers_in_decimal() {
    let mut out = String::new();
    push_signed_decimal(&mut out, -1);
    push_signed_decimal(&mut out, 0);
    push_signed_decimal(&mut out, 2024);
    assert_eq!(out, "-102024");
    let mut out = String::new();
    push_signed_decimal(&mut out, i32::MIN);
    assert_eq!(out, "-2147483648");
    let mut out = String::new();
    push_signed_decimal(&mut out, i32::MAX);
    assert_eq!(out, "2147483647");
}

#[test]
fn padded_numbers_match_the_standard_formatter() {
    for n in [0, 1, 9, 10, 11, 99, 100, 2024, -1, -9, -10, i32::MIN, i32::MAX] {
        let mut out = String::new();
        push_padded_decimal(&mut out, n);
        assert_eq!(out, format!("{:>02}", n));
        let mut out = String::new();
        push_signed_decimal(&mut out, n);
        assert_eq!(out, format!("{}", n));
    }
}

#[test]
fn characters_there_and_back() {
    assert_eq!(to_chars("a年\"b"), vec!['a', '年', '"', 'b']);
    assert_eq!(to_chars(""), Vec::<char>::new());
    assert_eq!(from_chars(&vec!['令', '和', '6']), "令和6");
    assert_eq!(from_chars(&to_chars("yyyy\"年\"")), "yyyy\"年\"");
}
