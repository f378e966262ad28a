use cell_format::calendar::DateTime;
use cell_format::format::{Format, FormatKind};
use cell_format::token::{Token, TokenKind};

fn moment(year: i32, month: u32, day: u32, hour: u32, minute: u32, second: u32) -> DateTime {
    DateTime::new(year, month, day, hour, minute, second).unwrap()
}

fn text(s: &str) -> Option<String> {
    Some(String::from(s))
}

#[test]
fn content_is_kept_as_given() {
    let format = Format::new("yyyy/mm/dd");
    assert_eq!(format.get_content(), "yyyy/mm/dd");
    assert_eq!(format.clone(), format);
    assert_ne!(Format::new("yyyy"), Format::new("yy"));
}

#[test]
fn four_letter_year_is_one_token() {
    let tokens = Format::new("yyyy").get_date_tokens().unwrap();
    assert_eq!(tokens, vec![Token { kind: TokenKind::Year4, start: 0, end: 4 }]);
    assert_eq!(Format::new("yyyy").get_date_formats(), Some(vec!["%Y"]));
}

#[test]
fn six_letter_year_is_a_long_and_a_short_one() {
    let tokens = Format::new("yyyyyy").get_date_tokens().unwrap();
    assert_eq!(
        tokens,
        vec![
            Token { kind: TokenKind::Year4, start: 0, end: 4 },
            Token { kind: TokenKind::Year2, start: 4, end: 6 },
        ]
    );
}

#[test]
fn slash_date_renders_padded_fields() {
    let format = Format::new("yyyy/mm/dd");
    let dt = moment(2024, 3, 5, 0, 0, 0);
    assert_eq!(format.get_date_formats(), Some(vec!["%Y", "/", "%m", "/", "%d"]));
    assert_eq!(format.get_date_pattern(&dt), text("%Y/%m/%d"));
    assert_eq!(format.get_formated_date(&dt), text("2024/03/05"));
}

#[test]
fn clock_time_reads_minutes_after_hours() {
    let format = Format::new("h:mm:ss");
    let dt = moment(2024, 3, 5, 9, 5, 3);
    assert_eq!(format.get_date_formats(), Some(vec!["%-H", ":", "%M", ":", "%S"]));
    assert_eq!(format.get_date_pattern(&dt), text("%-H:%M:%S"));
    assert_eq!(format.get_formated_date(&dt), text("9:05:03"));
}

#[test]
fn minutes_behind_hours_need_no_separator() {
    let format = Format::new("hhmm");
    let dt = moment(2024, 3, 5, 9, 5, 3);
    assert_eq!(format.get_date_formats(), Some(vec!["%H", "%M"]));
    assert_eq!(format.get_date_pattern(&dt), text("%H%M"));
    assert_eq!(format.get_formated_date(&dt), text("0905"));
    assert_eq!(Format::new("hmm").get_formated_date(&dt), text("905"));
    assert_eq!(Format::new("hhmmss").get_date_formats(), Some(vec!["%H", "%M", "%S"]));
    assert_eq!(Format::new("hhmmss").get_formated_date(&dt), text("090503"));
}

#[test]
fn minutes_before_seconds_need_no_separator() {
    let dt = moment(2024, 3, 5, 9, 5, 3);
    assert_eq!(Format::new("mmss").get_date_formats(), Some(vec!["%M", "%S"]));
    assert_eq!(Format::new("mmss").get_formated_date(&dt), text("0503"));
    assert_eq!(Format::new("ms").get_formated_date(&dt), text("53"));
}

#[test]
fn an_m_outside_a_pair_is_a_month() {
    let dt = moment(2024, 3, 5, 9, 5, 3);
    assert_eq!(Format::new("yyyymmdd").get_date_formats(), Some(vec!["%Y", "%m", "%d"]));
    assert_eq!(Format::new("yyyymmdd").get_formated_date(&dt), text("20240305"));
    assert_eq!(Format::new("mm").get_formated_date(&dt), text("03"));
    assert_eq!(Format::new("mm/dd").get_formated_date(&dt), text("03/05"));
    assert_eq!(Format::new("ddmm").get_formated_date(&dt), text("0503"));
    assert_eq!(Format::new("ss:mm").get_formated_date(&dt), text("03:03"));
}

#[test]
fn minutes_before_seconds_are_minutes() {
    let format = Format::new("mm:ss");
    let dt = moment(2024, 3, 5, 9, 5, 3);
    assert_eq!(format.get_date_pattern(&dt), text("%M:%S"));
    assert_eq!(format.get_formated_date(&dt), text("05:03"));
}

#[test]
fn era_date_resolves_name_and_year() {
    let format = Format::new("ggge\"年\"m\"月\"d\"日\"");
    let dt = moment(2024, 3, 5, 0, 0, 0);
    assert_eq!(
        format.get_date_formats(),
        Some(vec!["{{gengou3}}", "{{era1}}", "年", "%-m", "月", "%-d", "日"])
    );
    assert_eq!(format.get_date_pattern(&dt), text("令和6年%-m月%-d日"));
    assert_eq!(format.get_formated_date(&dt), text("令和6年3月5日"));
}

#[test]
fn era_date_without_quotes_is_no_format() {
    let format = Format::new("ggge年m月d日");
    let dt = moment(2024, 3, 5, 0, 0, 0);
    assert_eq!(format.get_date_tokens(), None);
    assert_eq!(format.get_formated_date(&dt), None);
    assert_eq!(format.classify(), FormatKind::Unrecognized);
}

#[test]
fn era_year_is_padded_to_two_digits() {
    let dt = moment(2024, 3, 5, 0, 0, 0);
    assert_eq!(Format::new("ee").get_date_pattern(&dt), text("06"));
    assert_eq!(Format::new("e").get_date_pattern(&dt), text("6"));
    let showa = moment(1988, 12, 31, 0, 0, 0);
    assert_eq!(Format::new("ee").get_date_pattern(&showa), text("63"));
    assert_eq!(Format::new("gee").get_formated_date(&showa), text("S63"));
    assert_eq!(Format::new("gge").get_formated_date(&showa), text("昭63"));
}

#[test]
fn before_the_first_era_the_calendar_year_stands() {
    let dt = moment(1800, 1, 2, 0, 0, 0);
    assert_eq!(Format::new("ggge/m/d").get_formated_date(&dt), text("1800/1/2"));
    let early = moment(5, 1, 2, 0, 0, 0);
    assert_eq!(Format::new("ee").get_date_pattern(&early), text("05"));
    let ancient = moment(-5, 1, 2, 0, 0, 0);
    assert_eq!(Format::new("e").get_date_pattern(&ancient), text("-5"));
    assert_eq!(Format::new("ee").get_date_pattern(&ancient), text("-5"));
}

#[test]
fn unknown_letters_are_no_format() {
    let format = Format::new("zzz");
    let dt = moment(2024, 3, 5, 0, 0, 0);
    assert_eq!(format.get_date_tokens(), None);
    assert_eq!(format.get_date_formats(), None);
    assert_eq!(format.get_date_pattern(&dt), None);
    assert_eq!(format.get_formated_date(&dt), None);
    assert_eq!(format.get_numeric_tokens(), None);
    assert_eq!(format.get_numeric_formats(), None);
    assert_eq!(format.classify(), FormatKind::Unrecognized);
    assert!(!Format::is_ymdhm("zzz"));
    assert!(!Format::is_numeric_ary("zzz"));
}

#[test]
fn partly_recognised_text_is_no_format() {
    let dt = moment(2024, 3, 5, 0, 0, 0);
    assert_eq!(Format::new("yyyy-mm").get_formated_date(&dt), None);
    assert_eq!(Format::new("yyyyz").get_date_formats(), None);
    assert!(!Format::is_ymdhm("yyyy mm"));
}

#[test]
fn quoted_text_is_rendered_untouched() {
    let dt = moment(2024, 3, 5, 9, 5, 3);
    assert_eq!(Format::new("\"literal\"").get_date_formats(), Some(vec!["literal"]));
    assert_eq!(Format::new("\"literal\"").get_formated_date(&dt), text("literal"));
    assert_eq!(Format::new("\"yyyy mm dd\"").get_formated_date(&dt), text("yyyy mm dd"));
    assert_eq!(Format::new("\"{{era1}}\"").get_formated_date(&dt), text("{{era1}}"));
    assert_eq!(Format::new("\"\"").get_formated_date(&dt), text(""));
    assert_eq!(Format::new("yyyy\" literal \"").get_formated_date(&dt), text("2024 literal "));
}

#[test]
fn quoted_percent_is_read_by_the_engine() {
    let dt = moment(2024, 3, 5, 9, 5, 3);
    assert_eq!(Format::new("\"%Y\"").get_date_pattern(&dt), text("%Y"));
    assert_eq!(Format::new("\"%Y\"").get_formated_date(&dt), text("2024"));
    assert_eq!(Format::new("\"100%\"").get_date_pattern(&dt), text("100%"));
    assert_eq!(Format::new("\"100%\"").get_formated_date(&dt), None);
    assert_eq!(Format::new("\\%").get_formated_date(&dt), None);
}

#[test]
fn escaped_character_is_rendered_alone() {
    let dt = moment(2024, 3, 5, 9, 5, 3);
    assert_eq!(Format::new("\\X").get_date_formats(), Some(vec!["X"]));
    assert_eq!(Format::new("\\X").get_formated_date(&dt), text("X"));
    assert_eq!(Format::new("\\y").get_formated_date(&dt), text("y"));
    assert_eq!(Format::new("\\\"").get_formated_date(&dt), text("\""));
    assert_eq!(Format::new("\\年").get_formated_date(&dt), text("年"));
    assert_eq!(Format::new("\\ ").get_formated_date(&dt), text(" "));
}

#[test]
fn classifying_twice_gives_the_same_stream() {
    let format = Format::new("yyyy/mm/dd hh:mm");
    assert_eq!(format.get_date_tokens(), format.get_date_tokens());
    let format = Format::new("ggge\"年\"hh:mm:ss");
    let first = format.get_date_tokens();
    let second = format.get_date_tokens();
    assert!(first.is_some());
    assert_eq!(first, second);
    assert_eq!(format.get_date_formats(), format.get_date_formats());
}

#[test]
fn two_letter_year_renders_the_full_year() {
    let dt = moment(2024, 3, 5, 0, 0, 0);
    assert_eq!(Format::new("yy").get_date_pattern(&dt), text("%Y"));
    assert_eq!(Format::new("yy/m/d").get_formated_date(&dt), text("2024/3/5"));
}

#[test]
fn names_of_months_and_weekdays() {
    let dt = moment(2024, 3, 5, 0, 0, 0);
    assert_eq!(Format::new("mmm").get_formated_date(&dt), text("Mar"));
    assert_eq!(Format::new("mmmm").get_formated_date(&dt), text("March"));
    assert_eq!(Format::new("ddd").get_formated_date(&dt), text("Tue"));
    assert_eq!(Format::new("dddd").get_formated_date(&dt), text("Tuesday"));
    assert_eq!(Format::new("dd").get_formated_date(&dt), text("05"));
    assert_eq!(Format::new("hh:m").get_formated_date(&dt), text("00:0"));
}

#[test]
fn markers_without_a_value_stay_as_they_are() {
    let dt = moment(2024, 3, 5, 0, 0, 0);
    assert_eq!(Format::new("mmmmm").get_formated_date(&dt), text("{{month5}}"));
    assert_eq!(Format::new("aaa").get_formated_date(&dt), text("{{youbi3}}"));
    assert_eq!(Format::new("aaaa").get_formated_date(&dt), text("{{youbi4}}"));
}

#[test]
fn empty_code_is_an_empty_date_format() {
    let dt = moment(2024, 3, 5, 0, 0, 0);
    let format = Format::new("");
    assert_eq!(format.get_date_tokens(), Some(vec![]));
    assert_eq!(format.get_date_formats(), Some(vec![]));
    assert_eq!(format.get_formated_date(&dt), text(""));
    assert_eq!(format.classify(), FormatKind::DateTime);
    assert!(Format::is_ymdhm(""));
    assert!(!Format::is_numeric_ary(""));
}

#[test]
fn numeric_code_has_one_to_four_sections() {
    assert_eq!(Format::new("0;0;0;0").get_numeric_tokens().unwrap().len(), 4);
    assert_eq!(Format::new("0;0;0;0;0").get_numeric_tokens(), None);
    assert_eq!(Format::new("0").get_numeric_tokens().unwrap().len(), 1);
    assert!(Format::is_numeric_ary("0;0;0;0"));
    assert!(!Format::is_numeric_ary("0;0;0;0;0"));
    assert_eq!(Format::new("0;0;0;0").classify(), FormatKind::Numeric);
    assert_eq!(Format::new("0;0;0;0;0").classify(), FormatKind::Unrecognized);
}

#[test]
fn numeric_values_by_section() {
    let format = Format::new("[BLACK]\"$\"#,##0.00;[赤]\\-[$￥-411]#,##0\"円\"");
    assert_eq!(
        format.get_numeric_formats(),
        Some(vec![
            vec!["{{black}}", "$", "#,##0.00"],
            vec!["{{red}}", "-", "{currency_jp}", "#,##0", "円"],
        ])
    );
    assert_eq!(format.get_date_tokens(), None);
    assert_eq!(format.classify(), FormatKind::Numeric);
}

#[test]
fn a_code_is_of_one_kind_only() {
    let codes = [
        "yyyy/mm/dd", "h:mm:ss", "0", "#,##0.00", "\"a\"", "\"a\"0", "\\00", "/0", "[RED]0", "",
        "zzz", "0;0", "0:", ":0",
    ];
    for code in codes {
        assert!(!(Format::is_ymdhm(code) && Format::is_numeric_ary(code)));
    }
    assert_eq!(Format::new("\"a\"").classify(), FormatKind::DateTime);
    assert_eq!(Format::new("\"a\"0").classify(), FormatKind::Numeric);
    assert_eq!(Format::new("0:").classify(), FormatKind::Numeric);
    assert_eq!(Format::new(":0").classify(), FormatKind::Numeric);
}
