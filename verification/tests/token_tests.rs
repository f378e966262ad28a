use cell_format::token::{
    black, color, currency_jp, day, escaped_word, fragment_str, hour, letter_token, match_tag,
    minute, month, number, quoted_word, red, second, special_word, word, year, Token, TokenKind,
};

fn chars(s: &str) -> Vec<char> {
    s.chars().collect()
}

fn token(kind: TokenKind, start: usize, end: usize) -> Option<Token> {
    Some(Token { kind, start, end })
}

#[test]
fn year_family_prefers_the_longest_pattern() {
    assert_eq!(year(&chars("yyyy"), 0), token(TokenKind::Year4, 0, 4));
    assert_eq!(year(&chars("yyyyy"), 0), token(TokenKind::Year4, 0, 4));
    assert_eq!(year(&chars("yyy"), 0), token(TokenKind::Year2, 0, 2));
    assert_eq!(year(&chars("yy"), 0), token(TokenKind::Year2, 0, 2));
    assert_eq!(year(&chars("y"), 0), None);
    assert_eq!(year(&chars("ee"), 0), token(TokenKind::Era2, 0, 2));
    assert_eq!(year(&chars("e"), 0), token(TokenKind::Era1, 0, 1));
    assert_eq!(year(&chars("ggg"), 0), token(TokenKind::Gengou3, 0, 3));
    assert_eq!(year(&chars("gg"), 0), token(TokenKind::Gengou2, 0, 2));
    assert_eq!(year(&chars("g"), 0), token(TokenKind::Gengou1, 0, 1));
    assert_eq!(year(&chars("m"), 0), None);
}

#[test]
fn letters_match_in_either_case() {
    assert_eq!(year(&chars("YYYY"), 0), token(TokenKind::Year4, 0, 4));
    assert_eq!(year(&chars("yYyY"), 0), token(TokenKind::Year4, 0, 4));
    assert_eq!(month(&chars("MM"), 0), token(TokenKind::Month2, 0, 2));
    assert_eq!(day(&chars("AAA"), 0), token(TokenKind::Youbi3, 0, 3));
    assert_eq!(hour(&chars("Hh"), 0), token(TokenKind::Hour2, 0, 2));
    assert_eq!(second(&chars("S"), 0), token(TokenKind::Second1, 0, 1));
}

#[test]
fn month_family_prefers_the_longest_pattern() {
    assert_eq!(month(&chars("mmmmmm"), 0), token(TokenKind::Month5, 0, 5));
    assert_eq!(month(&chars("mmmmm"), 0), token(TokenKind::Month5, 0, 5));
    assert_eq!(month(&chars("mmmm"), 0), token(TokenKind::Month4, 0, 4));
    assert_eq!(month(&chars("mmm"), 0), token(TokenKind::Month3, 0, 3));
    assert_eq!(month(&chars("mm"), 0), token(TokenKind::Month2, 0, 2));
    assert_eq!(month(&chars("m"), 0), token(TokenKind::Month1, 0, 1));
    assert_eq!(month(&chars(""), 0), None);
}

#[test]
fn day_family_prefers_the_longest_pattern() {
    assert_eq!(day(&chars("aaaa"), 0), token(TokenKind::Youbi4, 0, 4));
    assert_eq!(day(&chars("aaa"), 0), token(TokenKind::Youbi3, 0, 3));
    assert_eq!(day(&chars("aa"), 0), None);
    assert_eq!(day(&chars("dddd"), 0), token(TokenKind::Dow4, 0, 4));
    assert_eq!(day(&chars("ddd"), 0), token(TokenKind::Dow3, 0, 3));
    assert_eq!(day(&chars("dd"), 0), token(TokenKind::Day2, 0, 2));
    assert_eq!(day(&chars("d"), 0), token(TokenKind::Day1, 0, 1));
}

#[test]
fn time_families_know_one_and_two_letters() {
    assert_eq!(hour(&chars("hhh"), 0), token(TokenKind::Hour2, 0, 2));
    assert_eq!(hour(&chars("h"), 0), token(TokenKind::Hour1, 0, 1));
    assert_eq!(minute(&chars("mmm"), 0), token(TokenKind::Minute2, 0, 2));
    assert_eq!(minute(&chars("m"), 0), token(TokenKind::Minute1, 0, 1));
    assert_eq!(second(&chars("ss"), 0), token(TokenKind::Second2, 0, 2));
    assert_eq!(second(&chars("s"), 0), token(TokenKind::Second1, 0, 1));
    assert_eq!(second(&chars("m"), 0), None);
}

#[test]
fn tokens_are_found_at_the_position_asked_for() {
    let text = chars("xxyyyyzz");
    assert_eq!(year(&text, 2), token(TokenKind::Year4, 2, 6));
    assert_eq!(year(&text, 3), token(TokenKind::Year2, 3, 5));
    assert_eq!(year(&text, 5), None);
    assert_eq!(year(&text, 8), None);
    assert_eq!(year(&text, 9), None);
    assert_eq!(year(&text, usize::MAX), None);
}

#[test]
fn quoted_text_runs_to_the_next_quote() {
    assert_eq!(quoted_word(&chars("\"abc\"x"), 0), token(TokenKind::Quoted, 0, 5));
    assert_eq!(quoted_word(&chars("\"\""), 0), token(TokenKind::Quoted, 0, 2));
    assert_eq!(quoted_word(&chars("\"a\"b\""), 0), token(TokenKind::Quoted, 0, 3));
    assert_eq!(quoted_word(&chars("\"abc"), 0), None);
    assert_eq!(quoted_word(&chars("\""), 0), None);
    assert_eq!(quoted_word(&chars("abc\""), 0), None);
    assert_eq!(quoted_word(&chars("年\"月\""), 1), token(TokenKind::Quoted, 1, 4));
}

#[test]
fn escape_takes_exactly_one_character() {
    assert_eq!(escaped_word(&chars("\\x"), 0), token(TokenKind::Escaped, 0, 2));
    assert_eq!(escaped_word(&chars("\\年月"), 0), token(TokenKind::Escaped, 0, 2));
    assert_eq!(escaped_word(&chars("\\\\"), 0), token(TokenKind::Escaped, 0, 2));
    assert_eq!(escaped_word(&chars("\\"), 0), None);
    assert_eq!(escaped_word(&chars("x\\"), 0), None);
}

#[test]
fn separators_are_slash_and_colon() {
    assert_eq!(special_word(&chars("/"), 0), token(TokenKind::Special, 0, 1));
    assert_eq!(special_word(&chars(":"), 0), token(TokenKind::Special, 0, 1));
    assert_eq!(special_word(&chars("-"), 0), None);
    assert_eq!(special_word(&chars(" "), 0), None);
}

#[test]
fn literal_text_is_quoted_escaped_or_separator() {
    assert_eq!(word(&chars("\"a\""), 0), token(TokenKind::Quoted, 0, 3));
    assert_eq!(word(&chars("\\a"), 0), token(TokenKind::Escaped, 0, 2));
    assert_eq!(word(&chars("/a"), 0), token(TokenKind::Special, 0, 1));
    assert_eq!(word(&chars("a"), 0), None);
}

#[test]
fn mask_is_the_longest_run_of_placeholders() {
    assert_eq!(number(&chars("#,##0.00x"), 0), token(TokenKind::Number, 0, 8));
    assert_eq!(number(&chars("0"), 0), token(TokenKind::Number, 0, 1));
    assert_eq!(number(&chars("?0;"), 0), token(TokenKind::Number, 0, 2));
    assert_eq!(number(&chars("x0"), 0), None);
    assert_eq!(number(&chars("1"), 0), None);
    assert_eq!(number(&chars("a"), 0), None);
    assert_eq!(number(&chars(""), 0), None);
}

#[test]
fn markers_are_matched_letter_for_letter() {
    assert_eq!(currency_jp(&chars("[$￥-411]0"), 0), token(TokenKind::CurrencyJp, 0, 8));
    assert_eq!(currency_jp(&chars("[$¥-411]0"), 0), None);
    assert_eq!(red(&chars("[赤]"), 0), token(TokenKind::Red, 0, 3));
    assert_eq!(red(&chars("[RED]"), 0), token(TokenKind::Red, 0, 5));
    assert_eq!(red(&chars("[red]"), 0), None);
    assert_eq!(black(&chars("[黒]"), 0), token(TokenKind::Black, 0, 3));
    assert_eq!(black(&chars("[BLACK]"), 0), token(TokenKind::Black, 0, 7));
    assert_eq!(black(&chars("[Black]"), 0), None);
    assert_eq!(color(&chars("[RED]"), 0), token(TokenKind::Red, 0, 5));
    assert_eq!(color(&chars("[黒]"), 0), token(TokenKind::Black, 0, 3));
    assert_eq!(color(&chars("[BLUE]"), 0), None);
}

#[test]
fn tag_matching_reports_the_end() {
    let text = chars("abcDEF");
    assert_eq!(match_tag(&text, 3, "DEF", false), Some(6));
    assert_eq!(match_tag(&text, 3, "def", false), None);
    assert_eq!(match_tag(&text, 3, "def", true), Some(6));
    assert_eq!(match_tag(&text, 0, "ABC", true), Some(3));
    assert_eq!(match_tag(&text, 4, "EFG", true), None);
    assert_eq!(match_tag(&text, 6, "", false), Some(6));
    assert_eq!(match_tag(&text, 7, "", false), None);
}

#[test]
fn a_kind_without_letters_has_no_letter_token() {
    assert_eq!(letter_token(&chars("/"), 0, TokenKind::Special), None);
    assert_eq!(letter_token(&chars("0"), 0, TokenKind::Number), None);
    assert_eq!(letter_token(&chars("mm"), 0, TokenKind::Minute2), token(TokenKind::Minute2, 0, 2));
}

#[test]
fn fragments_are_directives_and_markers() {
    assert_eq!(fragment_str(TokenKind::Year4), "%Y");
    assert_eq!(fragment_str(TokenKind::Year2), "%Y");
    assert_eq!(fragment_str(TokenKind::Era1), "{{era1}}");
    assert_eq!(fragment_str(TokenKind::Era2), "{{era2}}");
    assert_eq!(fragment_str(TokenKind::Gengou1), "{{gengou1}}");
    assert_eq!(fragment_str(TokenKind::Gengou2), "{{gengou2}}");
    assert_eq!(fragment_str(TokenKind::Gengou3), "{{gengou3}}");
    assert_eq!(fragment_str(TokenKind::Month1), "%-m");
    assert_eq!(fragment_str(TokenKind::Month2), "%m");
    assert_eq!(fragment_str(TokenKind::Month3), "%b");
    assert_eq!(fragment_str(TokenKind::Month4), "%B");
    assert_eq!(fragment_str(TokenKind::Month5), "{{month5}}");
    assert_eq!(fragment_str(TokenKind::Day1), "%-d");
    assert_eq!(fragment_str(TokenKind::Day2), "%d");
    assert_eq!(fragment_str(TokenKind::Dow3), "%a");
    assert_eq!(fragment_str(TokenKind::Dow4), "%A");
    assert_eq!(fragment_str(TokenKind::Youbi3), "{{youbi3}}");
    assert_eq!(fragment_str(TokenKind::Youbi4), "{{youbi4}}");
    assert_eq!(fragment_str(TokenKind::Hour1), "%-H");
    assert_eq!(fragment_str(TokenKind::Hour2), "%H");
    assert_eq!(fragment_str(TokenKind::Minute1), "%-M");
    assert_eq!(fragment_str(TokenKind::Minute2), "%M");
    assert_eq!(fragment_str(TokenKind::Second1), "%-S");
    assert_eq!(fragment_str(TokenKind::Second2), "%S");
    assert_eq!(fragment_str(TokenKind::CurrencyJp), "{currency_jp}");
    assert_eq!(fragment_str(TokenKind::Red), "{{red}}");
    assert_eq!(fragment_str(TokenKind::Black), "{{black}}");
    assert_eq!(fragment_str(TokenKind::Quoted), "");
}
