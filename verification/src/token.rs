//! Token grammar: the smallest lexical units of a format code.
//!
//! Every recogniser looks at one position of the source text and either
//! reports the token that starts there or reports that none does. Within a
//! family the alternatives are tried longest pattern first, so a short
//! pattern never swallows the head of a longer one.

use vstd::prelude::*;

verus! {

/// The closed vocabulary of token labels.
#[derive(Clone, Copy, Debug, PartialEq, Eq, Structural)]
pub enum TokenKind {
    /// `yyyy`
    Year4,
    /// `yy`
    Year2,
    /// `e`: year within the era, unpadded
    Era1,
    /// `ee`: year within the era, two digits
    Era2,
    /// `g`: era name, abbreviated to a Latin letter
    Gengou1,
    /// `gg`: era name, first character
    Gengou2,
    /// `ggg`: era name in full
    Gengou3,
    /// `m` read as a month
    Month1,
    /// `mm` read as a month
    Month2,
    /// `mmm`
    Month3,
    /// `mmmm`
    Month4,
    /// `mmmmm`
    Month5,
    /// `d`
    Day1,
    /// `dd`
    Day2,
    /// `ddd`
    Dow3,
    /// `dddd`
    Dow4,
    /// `aaa`
    Youbi3,
    /// `aaaa`
    Youbi4,
    /// `h`
    Hour1,
    /// `hh`
    Hour2,
    /// `m` read as a minute
    Minute1,
    /// `mm` read as a minute
    Minute2,
    /// `s`
    Second1,
    /// `ss`
    Second2,
    /// `/` or `:`
    Special,
    /// a backslash and the character it protects
    Escaped,
    /// text between double quotes
    Quoted,
    /// the yen currency marker
    CurrencyJp,
    /// the red colour marker
    Red,
    /// the black colour marker
    Black,
    /// a run of digit placeholders
    Number,
}

/// A token found in a source text: its kind and the half-open range of
/// character positions it covers.
#[derive(Clone, Copy, Debug, PartialEq, Eq, Structural)]
pub struct Token {
    pub kind: TokenKind,
    pub start: usize,
    pub end: usize,
}

/// The mathematical counterpart of a [`Token`].
pub struct Lexeme {
    pub kind: TokenKind,
    pub start: int,
    pub end: int,
}

impl View for Token {
    type V = Lexeme;

    open spec fn view(&self) -> Lexeme {
        Lexeme { kind: self.kind, start: self.start as int, end: self.end as int }
    }
}

/// The views of a list of tokens.
pub open spec fn lexemes(tokens: Seq<Token>) -> Seq<Lexeme> {
    tokens.map_values(|t: Token| t@)
}

/// A character with ASCII upper-case letters folded onto lower case.
pub open spec fn fold_case(c: char) -> int {
    if 'A' as int <= c as int && c as int <= 'Z' as int {
        c as int + 32
    } else {
        c as int
    }
}

/// `tag` stands in `s` at `pos`, character for character.
pub open spec fn tag_at(s: Seq<char>, pos: int, tag: Seq<char>) -> bool {
    &&& 0 <= pos
    &&& pos + tag.len() <= s.len()
    &&& forall|i: int| 0 <= i < tag.len() ==> s[pos + i] == #[trigger] tag[i]
}

/// `tag` stands in `s` at `pos` when the case of ASCII letters is ignored.
pub open spec fn tag_no_case_at(s: Seq<char>, pos: int, tag: Seq<char>) -> bool {
    &&& 0 <= pos
    &&& pos + tag.len() <= s.len()
    &&& forall|i: int| 0 <= i < tag.len() ==> fold_case(s[pos + i]) == fold_case(#[trigger] tag[i])
}

fn fold(c: char) -> (r: u32)
    ensures
        r == fold_case(c),
{
    let n: u32 = c as u32;
    if 'A' as u32 <= n && n <= 'Z' as u32 {
        n + 32
    } else {
        n
    }
}

/// Tests whether `tag` stands in `chars` at `pos`, ignoring the case of
/// ASCII letters when `ignore_case` is set. On a match returns the position
/// just behind the tag.
pub fn match_tag(chars: &[char], pos: usize, tag: &str, ignore_case: bool) -> (r: Option<usize>)
    ensures
        r is Some <==> if ignore_case {
            tag_no_case_at(chars@, pos as int, tag@)
        } else {
            tag_at(chars@, pos as int, tag@)
        },
        r matches Some(end) ==> end == pos + tag@.len(),
{
    if pos > chars.len() {
        return None;
    }
    let mut i: usize = pos;
    for c in it: tag.chars()
        invariant
            i == pos + it.index(),
            i <= chars@.len(),
            it.seq() == tag@,
            ignore_case ==> forall|j: int|
                0 <= j < it.index() ==> fold_case(chars@[pos + j]) == fold_case(#[trigger] tag@[j]),
            !ignore_case ==> forall|j: int|
                0 <= j < it.index() ==> chars@[pos + j] == #[trigger] tag@[j],
    {
        if i >= chars.len() {
            return None;
        }
        let same = if ignore_case {
            fold(chars[i]) == fold(c)
        } else {
            chars[i] == c
        };
        if !same {
            assert(tag@[it.index() as int] == c);
            return None;
        }
        i = i + 1;
    }
    Some(i)
}

/// The views of an optional token.
pub open spec fn opt_lexeme(token: Option<Token>) -> Option<Lexeme> {
    match token {
        Some(t) => Some(t@),
        None => None,
    }
}

/// The views of an optional list of tokens.
pub open spec fn opt_lexemes(tokens: Option<Vec<Token>>) -> Option<Seq<Lexeme>> {
    match tokens {
        Some(v) => Some(lexemes(v@)),
        None => None,
    }
}

/// The first of two alternatives that matched.
pub open spec fn or_else(first: Option<Lexeme>, second: Option<Lexeme>) -> Option<Lexeme> {
    if first is Some {
        first
    } else {
        second
    }
}

/// The pattern by which a date or time token is written in a format code.
/// `None` for the kinds that are not written with letters.
pub open spec fn letter_tag(kind: TokenKind) -> Option<Seq<char>> {
    match kind {
        TokenKind::Year4 => Some("yyyy"@),
        TokenKind::Year2 => Some("yy"@),
        TokenKind::Era1 => Some("e"@),
        TokenKind::Era2 => Some("ee"@),
        TokenKind::Gengou1 => Some("g"@),
        TokenKind::Gengou2 => Some("gg"@),
        TokenKind::Gengou3 => Some("ggg"@),
        TokenKind::Month1 => Some("m"@),
        TokenKind::Month2 => Some("mm"@),
        TokenKind::Month3 => Some("mmm"@),
        TokenKind::Month4 => Some("mmmm"@),
        TokenKind::Month5 => Some("mmmmm"@),
        TokenKind::Day1 => Some("d"@),
        TokenKind::Day2 => Some("dd"@),
        TokenKind::Dow3 => Some("ddd"@),
        TokenKind::Dow4 => Some("dddd"@),
        TokenKind::Youbi3 => Some("aaa"@),
        TokenKind::Youbi4 => Some("aaaa"@),
        TokenKind::Hour1 => Some("h"@),
        TokenKind::Hour2 => Some("hh"@),
        TokenKind::Minute1 => Some("m"@),
        TokenKind::Minute2 => Some("mm"@),
        TokenKind::Second1 => Some("s"@),
        TokenKind::Second2 => Some("ss"@),
        _ => None,
    }
}

/// The text that a token of a fixed kind contributes to a rendering: a
/// calendar directive, or a marker in braces that stands for a value filled
/// in later. Empty for the kinds whose text comes from the source.
///
/// `yy` contributes the full-year directive, as `yyyy` does.
pub open spec fn fragment(kind: TokenKind) -> Seq<char> {
    match kind {
        TokenKind::Year4 => "%Y"@,
        TokenKind::Year2 => "%Y"@,
        TokenKind::Era1 => "{{era1}}"@,
        TokenKind::Era2 => "{{era2}}"@,
        TokenKind::Gengou1 => "{{gengou1}}"@,
        TokenKind::Gengou2 => "{{gengou2}}"@,
        TokenKind::Gengou3 => "{{gengou3}}"@,
        TokenKind::Month1 => "%-m"@,
        TokenKind::Month2 => "%m"@,
        TokenKind::Month3 => "%b"@,
        TokenKind::Month4 => "%B"@,
        TokenKind::Month5 => "{{month5}}"@,
        TokenKind::Day1 => "%-d"@,
        TokenKind::Day2 => "%d"@,
        TokenKind::Dow3 => "%a"@,
        TokenKind::Dow4 => "%A"@,
        TokenKind::Youbi3 => "{{youbi3}}"@,
        TokenKind::Youbi4 => "{{youbi4}}"@,
        TokenKind::Hour1 => "%-H"@,
        TokenKind::Hour2 => "%H"@,
        TokenKind::Minute1 => "%-M"@,
        TokenKind::Minute2 => "%M"@,
        TokenKind::Second1 => "%-S"@,
        TokenKind::Second2 => "%S"@,
        TokenKind::CurrencyJp => "{currency_jp}"@,
        TokenKind::Red => "{{red}}"@,
        TokenKind::Black => "{{black}}"@,
        TokenKind::Special | TokenKind::Escaped | TokenKind::Quoted | TokenKind::Number => {
            Seq::empty()
        },
    }
}

/// Whether the text of a token of this kind is taken from the source.
pub open spec fn is_verbatim(kind: TokenKind) -> bool {
    kind == TokenKind::Special || kind == TokenKind::Escaped || kind == TokenKind::Quoted
        || kind == TokenKind::Number
}

/// The text that a token found in `s` contributes to a rendering: the
/// fragment of its kind, or for a verbatim kind the source characters it
/// stands for (without the quotes or the backslash).
pub open spec fn value_of(s: Seq<char>, t: Lexeme) -> Seq<char> {
    match t.kind {
        TokenKind::Quoted => s.subrange(t.start + 1, t.end - 1),
        TokenKind::Escaped => s.subrange(t.start + 1, t.end),
        TokenKind::Special | TokenKind::Number => s.subrange(t.start, t.end),
        _ => fragment(t.kind),
    }
}

/// The token of the given date or time kind at `pos`, if its pattern stands there.
pub open spec fn letter_token_at(s: Seq<char>, pos: int, kind: TokenKind) -> Option<Lexeme> {
    match letter_tag(kind) {
        Some(tag) => if tag_no_case_at(s, pos, tag) {
            Some(Lexeme { kind, start: pos, end: pos + tag.len() })
        } else {
            None
        },
        None => None,
    }
}

fn letter_tag_str(kind: TokenKind) -> (r: Option<&'static str>)
    ensures
        match r {
            Some(tag) => letter_tag(kind) == Some(tag@),
            None => letter_tag(kind) is None,
        },
{
    match kind {
        TokenKind::Year4 => Some("yyyy"),
        TokenKind::Year2 => Some("yy"),
        TokenKind::Era1 => Some("e"),
        TokenKind::Era2 => Some("ee"),
        TokenKind::Gengou1 => Some("g"),
        TokenKind::Gengou2 => Some("gg"),
        TokenKind::Gengou3 => Some("ggg"),
        TokenKind::Month1 => Some("m"),
        TokenKind::Month2 => Some("mm"),
        TokenKind::Month3 => Some("mmm"),
        TokenKind::Month4 => Some("mmmm"),
        TokenKind::Month5 => Some("mmmmm"),
        TokenKind::Day1 => Some("d"),
        TokenKind::Day2 => Some("dd"),
        TokenKind::Dow3 => Some("ddd"),
        TokenKind::Dow4 => Some("dddd"),
        TokenKind::Youbi3 => Some("aaa"),
        TokenKind::Youbi4 => Some("aaaa"),
        TokenKind::Hour1 => Some("h"),
        TokenKind::Hour2 => Some("hh"),
        TokenKind::Minute1 => Some("m"),
        TokenKind::Minute2 => Some("mm"),
        TokenKind::Second1 => Some("s"),
        TokenKind::Second2 => Some("ss"),
        _ => None,
    }
}

/// The fragment of a kind, as a string.
pub fn fragment_str(kind: TokenKind) -> (r: &'static str)
    ensures
        r@ == fragment(kind),
{
    match kind {
        TokenKind::Year4 => "%Y",
        TokenKind::Year2 => "%Y",
        TokenKind::Era1 => "{{era1}}",
        TokenKind::Era2 => "{{era2}}",
        TokenKind::Gengou1 => "{{gengou1}}",
        TokenKind::Gengou2 => "{{gengou2}}",
        TokenKind::Gengou3 => "{{gengou3}}",
        TokenKind::Month1 => "%-m",
        TokenKind::Month2 => "%m",
        TokenKind::Month3 => "%b",
        TokenKind::Month4 => "%B",
        TokenKind::Month5 => "{{month5}}",
        TokenKind::Day1 => "%-d",
        TokenKind::Day2 => "%d",
        TokenKind::Dow3 => "%a",
        TokenKind::Dow4 => "%A",
        TokenKind::Youbi3 => "{{youbi3}}",
        TokenKind::Youbi4 => "{{youbi4}}",
        TokenKind::Hour1 => "%-H",
        TokenKind::Hour2 => "%H",
        TokenKind::Minute1 => "%-M",
        TokenKind::Minute2 => "%M",
        TokenKind::Second1 => "%-S",
        TokenKind::Second2 => "%S",
        TokenKind::CurrencyJp => "{currency_jp}",
        TokenKind::Red => "{{red}}",
        TokenKind::Black => "{{black}}",
        TokenKind::Special | TokenKind::Escaped | TokenKind::Quoted | TokenKind::Number => {
            proof {
                reveal_strlit("");
            }
            ""
        },
    }
}

/// Recognises the date or time token of the given kind at `pos`.
pub fn letter_token(chars: &[char], pos: usize, kind: TokenKind) -> (r: Option<Token>)
    ensures
        opt_lexeme(r) == letter_token_at(chars@, pos as int, kind),
{
    match letter_tag_str(kind) {
        Some(tag) => match match_tag(chars, pos, tag, true) {
            Some(end) => Some(Token { kind, start: pos, end }),
            None => None,
        },
        None => None,
    }
}

/// The year family at `pos`: `yyyy`, `yy`, `ee`, `e`, `ggg`, `gg`, `g`, in this order.
pub open spec fn year_at(s: Seq<char>, pos: int) -> Option<Lexeme> {
    or_else(
        letter_token_at(s, pos, TokenKind::Year4),
        or_else(
            letter_token_at(s, pos, TokenKind::Year2),
            or_else(
                letter_token_at(s, pos, TokenKind::Era2),
                or_else(
                    letter_token_at(s, pos, TokenKind::Era1),
                    or_else(
                        letter_token_at(s, pos, TokenKind::Gengou3),
                        or_else(
                            letter_token_at(s, pos, TokenKind::Gengou2),
                            letter_token_at(s, pos, TokenKind::Gengou1),
                        ),
                    ),
                ),
            ),
        ),
    )
}

/// The month family at `pos`: `mmmmm`, `mmmm`, `mmm`, `mm`, `m`, in this order.
pub open spec fn month_at(s: Seq<char>, pos: int) -> Option<Lexeme> {
    or_else(
        letter_token_at(s, pos, TokenKind::Month5),
        or_else(
            letter_token_at(s, pos, TokenKind::Month4),
            or_else(
                letter_token_at(s, pos, TokenKind::Month3),
                or_else(
                    letter_token_at(s, pos, TokenKind::Month2),
                    letter_token_at(s, pos, TokenKind::Month1),
                ),
            ),
        ),
    )
}

/// The day family at `pos`: `aaaa`, `aaa`, `dddd`, `ddd`, `dd`, `d`, in this order.
pub open spec fn day_at(s: Seq<char>, pos: int) -> Option<Lexeme> {
    or_else(
        letter_token_at(s, pos, TokenKind::Youbi4),
        or_else(
            letter_token_at(s, pos, TokenKind::Youbi3),
            or_else(
                letter_token_at(s, pos, TokenKind::Dow4),
                or_else(
                    letter_token_at(s, pos, TokenKind::Dow3),
                    or_else(
                        letter_token_at(s, pos, TokenKind::Day2),
                        letter_token_at(s, pos, TokenKind::Day1),
                    ),
                ),
            ),
        ),
    )
}

/// The hour family at `pos`: `hh`, then `h`.
pub open spec fn hour_at(s: Seq<char>, pos: int) -> Option<Lexeme> {
    or_else(letter_token_at(s, pos, TokenKind::Hour2), letter_token_at(s, pos, TokenKind::Hour1))
}

/// The minute family at `pos`: `mm`, then `m`.
pub open spec fn minute_at(s: Seq<char>, pos: int) -> Option<Lexeme> {
    or_else(
        letter_token_at(s, pos, TokenKind::Minute2),
        letter_token_at(s, pos, TokenKind::Minute1),
    )
}

/// The second family at `pos`: `ss`, then `s`.
pub open spec fn second_at(s: Seq<char>, pos: int) -> Option<Lexeme> {
    or_else(
        letter_token_at(s, pos, TokenKind::Second2),
        letter_token_at(s, pos, TokenKind::Second1),
    )
}

/// Recognises a year, era or era-name token at `pos`.
pub fn year(chars: &[char], pos: usize) -> (r: Option<Token>)
    ensures
        opt_lexeme(r) == year_at(chars@, pos as int),
{
    let r = letter_token(chars, pos, TokenKind::Year4);
    if r.is_some() {
        return r;
    }
    let r = letter_token(chars, pos, TokenKind::Year2);
    if r.is_some() {
        return r;
    }
    let r = letter_token(chars, pos, TokenKind::Era2);
    if r.is_some() {
        return r;
    }
    let r = letter_token(chars, pos, TokenKind::Era1);
    if r.is_some() {
        return r;
    }
    let r = letter_token(chars, pos, TokenKind::Gengou3);
    if r.is_some() {
        return r;
    }
    let r = letter_token(chars, pos, TokenKind::Gengou2);
    if r.is_some() {
        return r;
    }
    letter_token(chars, pos, TokenKind::Gengou1)
}

/// Recognises a month token at `pos`.
pub fn month(chars: &[char], pos: usize) -> (r: Option<Token>)
    ensures
        opt_lexeme(r) == month_at(chars@, pos as int),
{
    let r = letter_token(chars, pos, TokenKind::Month5);
    if r.is_some() {
        return r;
    }
    let r = letter_token(chars, pos, TokenKind::Month4);
    if r.is_some() {
        return r;
    }
    let r = letter_token(chars, pos, TokenKind::Month3);
    if r.is_some() {
        return r;
    }
    let r = letter_token(chars, pos, TokenKind::Month2);
    if r.is_some() {
        return r;
    }
    letter_token(chars, pos, TokenKind::Month1)
}

/// Recognises a day or weekday token at `pos`.
pub fn day(chars: &[char], pos: usize) -> (r: Option<Token>)
    ensures
        opt_lexeme(r) == day_at(chars@, pos as int),
{
    let r = letter_token(chars, pos, TokenKind::Youbi4);
    if r.is_some() {
        return r;
    }
    let r = letter_token(chars, pos, TokenKind::Youbi3);
    if r.is_some() {
        return r;
    }
    let r = letter_token(chars, pos, TokenKind::Dow4);
    if r.is_some() {
        return r;
    }
    let r = letter_token(chars, pos, TokenKind::Dow3);
    if r.is_some() {
        return r;
    }
    let r = letter_token(chars, pos, TokenKind::Day2);
    if r.is_some() {
        return r;
    }
    letter_token(chars, pos, TokenKind::Day1)
}

/// Recognises an hour token at `pos`.
pub fn hour(chars: &[char], pos: usize) -> (r: Option<Token>)
    ensures
        opt_lexeme(r) == hour_at(chars@, pos as int),
{
    let r = letter_token(chars, pos, TokenKind::Hour2);
    if r.is_some() {
        return r;
    }
    letter_token(chars, pos, TokenKind::Hour1)
}

/// Recognises a minute token at `pos`.
pub fn minute(chars: &[char], pos: usize) -> (r: Option<Token>)
    ensures
        opt_lexeme(r) == minute_at(chars@, pos as int),
{
    let r = letter_token(chars, pos, TokenKind::Minute2);
    if r.is_some() {
        return r;
    }
    letter_token(chars, pos, TokenKind::Minute1)
}

/// Recognises a second token at `pos`.
pub fn second(chars: &[char], pos: usize) -> (r: Option<Token>)
    ensures
        opt_lexeme(r) == second_at(chars@, pos as int),
{
    let r = letter_token(chars, pos, TokenKind::Second2);
    if r.is_some() {
        return r;
    }
    letter_token(chars, pos, TokenKind::Second1)
}

/// The first position at or behind `from` at which `c` stands in `s`, or
/// the length of `s` if `c` does not occur from there on.
pub open spec fn find_char(s: Seq<char>, from: int, c: char) -> int
    decreases s.len() - from,
{
    if from < 0 || from >= s.len() {
        s.len() as int
    } else if s[from] == c {
        from
    } else {
        find_char(s, from + 1, c)
    }
}

/// Quoted text at `pos`: an opening double quote, then everything up to the
/// next double quote, which must exist. The text may be empty.
pub open spec fn quoted_at(s: Seq<char>, pos: int) -> Option<Lexeme> {
    if 0 <= pos < s.len() && s[pos] == '"' && find_char(s, pos + 1, '"') < s.len() {
        Some(Lexeme { kind: TokenKind::Quoted, start: pos, end: find_char(s, pos + 1, '"') + 1 })
    } else {
        None
    }
}

/// An escaped character at `pos`: a backslash and one more character, whatever it is.
pub open spec fn escaped_at(s: Seq<char>, pos: int) -> Option<Lexeme> {
    if 0 <= pos && pos + 1 < s.len() && s[pos] == '\\' {
        Some(Lexeme { kind: TokenKind::Escaped, start: pos, end: pos + 2 })
    } else {
        None
    }
}

/// A separator at `pos`: `/` or `:`.
pub open spec fn special_at(s: Seq<char>, pos: int) -> Option<Lexeme> {
    if 0 <= pos < s.len() && (s[pos] == '/' || s[pos] == ':') {
        Some(Lexeme { kind: TokenKind::Special, start: pos, end: pos + 1 })
    } else {
        None
    }
}

/// Literal text at `pos`: quoted text, else an escaped character, else a separator.
pub open spec fn word_at(s: Seq<char>, pos: int) -> Option<Lexeme> {
    or_else(quoted_at(s, pos), or_else(escaped_at(s, pos), special_at(s, pos)))
}

/// The characters of which a numeric mask is made.
pub open spec fn is_placeholder(c: char) -> bool {
    c == '0' || c == '#' || c == '.' || c == ',' || c == '?'
}

/// The first position at or behind `from` that holds no placeholder
/// character, or the length of `s` if there is none.
pub open spec fn placeholder_run_end(s: Seq<char>, from: int) -> int
    decreases s.len() - from,
{
    if from < 0 || from >= s.len() {
        s.len() as int
    } else if !is_placeholder(s[from]) {
        from
    } else {
        placeholder_run_end(s, from + 1)
    }
}

/// A numeric mask at `pos`: the longest run of placeholder characters that
/// starts there, which must not be empty.
pub open spec fn number_at(s: Seq<char>, pos: int) -> Option<Lexeme> {
    if 0 <= pos < s.len() && is_placeholder(s[pos]) {
        Some(Lexeme { kind: TokenKind::Number, start: pos, end: placeholder_run_end(s, pos) })
    } else {
        None
    }
}

/// A token of the given kind at `pos`, if `tag` stands there character for character.
pub open spec fn tagged_at(s: Seq<char>, pos: int, tag: Seq<char>, kind: TokenKind) -> Option<
    Lexeme,
> {
    if tag_at(s, pos, tag) {
        Some(Lexeme { kind, start: pos, end: pos + tag.len() })
    } else {
        None
    }
}

/// The yen currency marker at `pos`.
pub open spec fn currency_jp_at(s: Seq<char>, pos: int) -> Option<Lexeme> {
    tagged_at(s, pos, "[$￥-411]"@, TokenKind::CurrencyJp)
}

/// The red colour marker at `pos`, in either spelling.
pub open spec fn red_at(s: Seq<char>, pos: int) -> Option<Lexeme> {
    or_else(
        tagged_at(s, pos, "[赤]"@, TokenKind::Red),
        tagged_at(s, pos, "[RED]"@, TokenKind::Red),
    )
}

/// The black colour marker at `pos`, in either spelling.
pub open spec fn black_at(s: Seq<char>, pos: int) -> Option<Lexeme> {
    or_else(
        tagged_at(s, pos, "[黒]"@, TokenKind::Black),
        tagged_at(s, pos, "[BLACK]"@, TokenKind::Black),
    )
}

/// A colour marker at `pos`: red, else black.
pub open spec fn color_at(s: Seq<char>, pos: int) -> Option<Lexeme> {
    or_else(red_at(s, pos), black_at(s, pos))
}

/// Recognises a separator at `pos`.
pub fn special_word(chars: &[char], pos: usize) -> (r: Option<Token>)
    ensures
        opt_lexeme(r) == special_at(chars@, pos as int),
{
    if pos < chars.len() && (chars[pos] == '/' || chars[pos] == ':') {
        Some(Token { kind: TokenKind::Special, start: pos, end: pos + 1 })
    } else {
        None
    }
}

/// Recognises an escaped character at `pos`.
pub fn escaped_word(chars: &[char], pos: usize) -> (r: Option<Token>)
    ensures
        opt_lexeme(r) == escaped_at(chars@, pos as int),
{
    if pos < chars.len() && chars.len() - pos > 1 && chars[pos] == '\\' {
        Some(Token { kind: TokenKind::Escaped, start: pos, end: pos + 2 })
    } else {
        None
    }
}

/// Recognises quoted text at `pos`.
pub fn quoted_word(chars: &[char], pos: usize) -> (r: Option<Token>)
    ensures
        opt_lexeme(r) == quoted_at(chars@, pos as int),
{
    if pos >= chars.len() || chars[pos] != '"' {
        return None;
    }
    let mut close: usize = pos + 1;
    while close < chars.len() && chars[close] != '"'
        invariant
            pos < close <= chars@.len(),
            find_char(chars@, pos + 1, '"') == find_char(chars@, close as int, '"'),
        decreases chars@.len() - close,
    {
        close = close + 1;
    }
    if close < chars.len() {
        Some(Token { kind: TokenKind::Quoted, start: pos, end: close + 1 })
    } else {
        None
    }
}

/// Recognises literal text at `pos`.
pub fn word(chars: &[char], pos: usize) -> (r: Option<Token>)
    ensures
        opt_lexeme(r) == word_at(chars@, pos as int),
{
    let r = quoted_word(chars, pos);
    if r.is_some() {
        return r;
    }
    let r = escaped_word(chars, pos);
    if r.is_some() {
        return r;
    }
    special_word(chars, pos)
}

fn placeholder(c: char) -> (r: bool)
    ensures
        r == is_placeholder(c),
{
    c == '0' || c == '#' || c == '.' || c == ',' || c == '?'
}

/// Recognises a numeric mask at `pos`.
pub fn number(chars: &[char], pos: usize) -> (r: Option<Token>)
    ensures
        opt_lexeme(r) == number_at(chars@, pos as int),
{
    if pos >= chars.len() || !placeholder(chars[pos]) {
        return None;
    }
    let mut end: usize = pos + 1;
    while end < chars.len() && placeholder(chars[end])
        invariant
            pos < end <= chars@.len(),
            placeholder_run_end(chars@, pos as int) == placeholder_run_end(chars@, end as int),
        decreases chars@.len() - end,
    {
        end = end + 1;
    }
    Some(Token { kind: TokenKind::Number, start: pos, end })
}

fn tagged(chars: &[char], pos: usize, tag: &str, kind: TokenKind) -> (r: Option<Token>)
    ensures
        opt_lexeme(r) == tagged_at(chars@, pos as int, tag@, kind),
{
    match match_tag(chars, pos, tag, false) {
        Some(end) => Some(Token { kind, start: pos, end }),
        None => None,
    }
}

/// Recognises the yen currency marker at `pos`.
pub fn currency_jp(chars: &[char], pos: usize) -> (r: Option<Token>)
    ensures
        opt_lexeme(r) == currency_jp_at(chars@, pos as int),
{
    tagged(chars, pos, "[$￥-411]", TokenKind::CurrencyJp)
}

/// Recognises the red colour marker at `pos`.
pub fn red(chars: &[char], pos: usize) -> (r: Option<Token>)
    ensures
        opt_lexeme(r) == red_at(chars@, pos as int),
{
    let r = tagged(chars, pos, "[赤]", TokenKind::Red);
    if r.is_some() {
        return r;
    }
    tagged(chars, pos, "[RED]", TokenKind::Red)
}

/// Recognises the black colour marker at `pos`.
pub fn black(chars: &[char], pos: usize) -> (r: Option<Token>)
    ensures
        opt_lexeme(r) == black_at(chars@, pos as int),
{
    let r = tagged(chars, pos, "[黒]", TokenKind::Black);
    if r.is_some() {
        return r;
    }
    tagged(chars, pos, "[BLACK]", TokenKind::Black)
}

/// Recognises a colour marker at `pos`.
pub fn color(chars: &[char], pos: usize) -> (r: Option<Token>)
    ensures
        opt_lexeme(r) == color_at(chars@, pos as int),
{
    let r = red(chars, pos);
    if r.is_some() {
        return r;
    }
    black(chars, pos)
}

/// The patterns of the date and time kinds, spelt out: each is one letter
/// repeated one to five times.
pub proof fn lemma_letter_tags(kind: TokenKind)
    ensures
        letter_tag(kind) matches Some(tag) ==> 1 <= tag.len() <= 5 && forall|i: int|
            0 <= i < tag.len() ==> #[trigger] tag[i] == tag[0],
        letter_tag(TokenKind::Year4) == Some(seq!['y', 'y', 'y', 'y']),
        letter_tag(TokenKind::Year2) == Some(seq!['y', 'y']),
        letter_tag(TokenKind::Era2) == Some(seq!['e', 'e']),
        letter_tag(TokenKind::Era1) == Some(seq!['e']),
        letter_tag(TokenKind::Gengou3) == Some(seq!['g', 'g', 'g']),
        letter_tag(TokenKind::Gengou2) == Some(seq!['g', 'g']),
        letter_tag(TokenKind::Gengou1) == Some(seq!['g']),
        letter_tag(TokenKind::Month5) == Some(seq!['m', 'm', 'm', 'm', 'm']),
        letter_tag(TokenKind::Month4) == Some(seq!['m', 'm', 'm', 'm']),
        letter_tag(TokenKind::Month3) == Some(seq!['m', 'm', 'm']),
        letter_tag(TokenKind::Month2) == Some(seq!['m', 'm']),
        letter_tag(TokenKind::Month1) == Some(seq!['m']),
        letter_tag(TokenKind::Youbi4) == Some(seq!['a', 'a', 'a', 'a']),
        letter_tag(TokenKind::Youbi3) == Some(seq!['a', 'a', 'a']),
        letter_tag(TokenKind::Dow4) == Some(seq!['d', 'd', 'd', 'd']),
        letter_tag(TokenKind::Dow3) == Some(seq!['d', 'd', 'd']),
        letter_tag(TokenKind::Day2) == Some(seq!['d', 'd']),
        letter_tag(TokenKind::Day1) == Some(seq!['d']),
        letter_tag(TokenKind::Hour2) == Some(seq!['h', 'h']),
        letter_tag(TokenKind::Hour1) == Some(seq!['h']),
        letter_tag(TokenKind::Minute2) == Some(seq!['m', 'm']),
        letter_tag(TokenKind::Minute1) == Some(seq!['m']),
        letter_tag(TokenKind::Second2) == Some(seq!['s', 's']),
        letter_tag(TokenKind::Second1) == Some(seq!['s']),
{
    reveal_strlit("yyyy");
    reveal_strlit("yy");
    reveal_strlit("ee");
    reveal_strlit("e");
    reveal_strlit("ggg");
    reveal_strlit("gg");
    reveal_strlit("g");
    reveal_strlit("mmmmm");
    reveal_strlit("mmmm");
    reveal_strlit("mmm");
    reveal_strlit("mm");
    reveal_strlit("m");
    reveal_strlit("aaaa");
    reveal_strlit("aaa");
    reveal_strlit("dddd");
    reveal_strlit("ddd");
    reveal_strlit("dd");
    reveal_strlit("d");
    reveal_strlit("hh");
    reveal_strlit("h");
    reveal_strlit("ss");
    reveal_strlit("s");
    assert("yyyy"@ =~= seq!['y', 'y', 'y', 'y']);
    assert("yy"@ =~= seq!['y', 'y']);
    assert("ee"@ =~= seq!['e', 'e']);
    assert("e"@ =~= seq!['e']);
    assert("ggg"@ =~= seq!['g', 'g', 'g']);
    assert("gg"@ =~= seq!['g', 'g']);
    assert("g"@ =~= seq!['g']);
    assert("mmmmm"@ =~= seq!['m', 'm', 'm', 'm', 'm']);
    assert("mmmm"@ =~= seq!['m', 'm', 'm', 'm']);
    assert("mmm"@ =~= seq!['m', 'm', 'm']);
    assert("mm"@ =~= seq!['m', 'm']);
    assert("m"@ =~= seq!['m']);
    assert("aaaa"@ =~= seq!['a', 'a', 'a', 'a']);
    assert("aaa"@ =~= seq!['a', 'a', 'a']);
    assert("dddd"@ =~= seq!['d', 'd', 'd', 'd']);
    assert("ddd"@ =~= seq!['d', 'd', 'd']);
    assert("dd"@ =~= seq!['d', 'd']);
    assert("d"@ =~= seq!['d']);
    assert("hh"@ =~= seq!['h', 'h']);
    assert("h"@ =~= seq!['h']);
    assert("ss"@ =~= seq!['s', 's']);
    assert("s"@ =~= seq!['s']);
}

/// The token lies inside `s` and is not empty; quoted text holds both its
/// quotes and an escaped character its backslash.
pub open spec fn in_text(s: Seq<char>, t: Lexeme) -> bool {
    &&& 0 <= t.start < t.end <= s.len()
    &&& t.kind == TokenKind::Quoted ==> t.start + 2 <= t.end
    &&& t.kind == TokenKind::Escaped ==> t.start + 2 == t.end
}

/// A token that a recogniser reports at `pos` starts at `pos` and lies
/// inside the text: see [`in_text`].
pub open spec fn advances(s: Seq<char>, pos: int, t: Option<Lexeme>) -> bool {
    t matches Some(l) ==> l.start == pos && in_text(s, l)
}

/// The position behind the tokens `ts`, which were read from `pos` on.
pub open spec fn end_of(pos: int, ts: Seq<Lexeme>) -> int {
    if ts.len() == 0 {
        pos
    } else {
        ts.last().end
    }
}

/// The tokens of `ts` follow each other without a gap, the first at `pos`,
/// each inside the text: see [`in_text`].
pub open spec fn contiguous(s: Seq<char>, pos: int, ts: Seq<Lexeme>) -> bool
    decreases ts.len(),
{
    if ts.len() == 0 {
        0 <= pos <= s.len()
    } else {
        ts[0].start == pos && in_text(s, ts[0]) && contiguous(s, ts[0].end, ts.drop_first())
    }
}

/// Two contiguous lists of tokens, the second starting where the first
/// ends, make one contiguous list.
pub proof fn lemma_contiguous_concat(s: Seq<char>, pos: int, a: Seq<Lexeme>, b: Seq<Lexeme>)
    requires
        contiguous(s, pos, a),
        contiguous(s, end_of(pos, a), b),
    ensures
        contiguous(s, pos, a + b),
        end_of(pos, a + b) == end_of(end_of(pos, a), b),
    decreases a.len(),
{
    if a.len() == 0 {
        assert(a + b =~= b);
    } else {
        let rest = a.drop_first();
        assert(end_of(a[0].end, rest) == end_of(pos, a));
        lemma_contiguous_concat(s, a[0].end, rest, b);
        assert((a + b).drop_first() =~= rest + b);
        if (rest + b).len() > 0 {
            assert((a + b).last() == (rest + b).last());
        }
    }
}

/// Every token of a contiguous list lies inside the text, and the list
/// ends between its start and the end of the text.
pub proof fn lemma_contiguous_tokens(s: Seq<char>, pos: int, ts: Seq<Lexeme>)
    requires
        contiguous(s, pos, ts),
    ensures
        forall|i: int| 0 <= i < ts.len() ==> in_text(s, #[trigger] ts[i]),
        0 <= pos <= end_of(pos, ts) <= s.len(),
    decreases ts.len(),
{
    if ts.len() > 0 {
        let rest = ts.drop_first();
        lemma_contiguous_tokens(s, ts[0].end, rest);
        assert forall|i: int| 0 <= i < ts.len() implies in_text(s, #[trigger] ts[i]) by {
            if i > 0 {
                assert(ts[i] == rest[i - 1]);
            }
        }
        if rest.len() > 0 {
            assert(ts.last() == rest.last());
        }
    }
}

/// One token reported at `pos` is a contiguous list.
pub proof fn lemma_contiguous_one(s: Seq<char>, pos: int, t: Lexeme)
    requires
        advances(s, pos, Some(t)),
    ensures
        contiguous(s, pos, seq![t]),
        end_of(pos, seq![t]) == t.end,
{
    assert(seq![t].drop_first() =~= Seq::<Lexeme>::empty());
    assert(contiguous(s, t.end, Seq::<Lexeme>::empty()));
}

/// See [`find_char`]: the position it returns lies between `from` and the
/// end, holds `c` unless it is the end, and no position before it holds `c`.
pub proof fn lemma_find_char(s: Seq<char>, from: int, c: char)
    requires
        0 <= from <= s.len(),
    ensures
        from <= find_char(s, from, c) <= s.len(),
        find_char(s, from, c) < s.len() ==> s[find_char(s, from, c)] == c,
        forall|i: int| from <= i < find_char(s, from, c) ==> s[i] != c,
    decreases s.len() - from,
{
    if from < s.len() && s[from] != c {
        lemma_find_char(s, from + 1, c);
    }
}

/// See [`placeholder_run_end`]: every position from `from` up to the one it
/// returns holds a placeholder, and that position holds none.
pub proof fn lemma_placeholder_run_end(s: Seq<char>, from: int)
    requires
        0 <= from <= s.len(),
    ensures
        from <= placeholder_run_end(s, from) <= s.len(),
        placeholder_run_end(s, from) < s.len() ==> !is_placeholder(
            s[placeholder_run_end(s, from)],
        ),
        forall|i: int| from <= i < placeholder_run_end(s, from) ==> is_placeholder(s[i]),
    decreases s.len() - from,
{
    if from < s.len() && is_placeholder(s[from]) {
        lemma_placeholder_run_end(s, from + 1);
    }
}

/// Every date, time and literal recogniser consumes at least one character.
pub proof fn lemma_tokens_advance(s: Seq<char>, pos: int)
    ensures
        advances(s, pos, year_at(s, pos)),
        advances(s, pos, month_at(s, pos)),
        advances(s, pos, day_at(s, pos)),
        advances(s, pos, hour_at(s, pos)),
        advances(s, pos, minute_at(s, pos)),
        advances(s, pos, second_at(s, pos)),
        advances(s, pos, word_at(s, pos)),
        advances(s, pos, number_at(s, pos)),
{
    lemma_letter_tags(TokenKind::Year4);
    if 0 <= pos < s.len() {
        lemma_find_char(s, pos + 1, '"');
        lemma_placeholder_run_end(s, pos);
    }
}

/// The colour and currency recognisers consume at least one character.
pub proof fn lemma_markers_advance(s: Seq<char>, pos: int)
    ensures
        advances(s, pos, currency_jp_at(s, pos)),
        advances(s, pos, red_at(s, pos)),
        advances(s, pos, black_at(s, pos)),
        advances(s, pos, color_at(s, pos)),
{
    reveal_strlit("[$￥-411]");
    reveal_strlit("[赤]");
    reveal_strlit("[RED]");
    reveal_strlit("[黒]");
    reveal_strlit("[BLACK]");
}

/// Where the pattern of a date or time kind stands, the first character
/// is the letter of that pattern, in either case.
pub proof fn lemma_first_letter(s: Seq<char>, pos: int, kind: TokenKind)
    ensures
        letter_token_at(s, pos, kind) is Some ==> 0 <= pos < s.len() && fold_case(s[pos])
            == fold_case(letter_tag(kind).unwrap()[0]),
{
    lemma_letter_tags(kind);
    if letter_token_at(s, pos, kind) is Some {
        let tag = letter_tag(kind).unwrap();
        assert(fold_case(s[pos + 0]) == fold_case(tag[0]));
    }
}

/// The families of date and time tokens.
pub enum Family {
    Year,
    Month,
    Day,
    Hour,
    Minute,
    Second,
}

/// The family that a date or time kind belongs to. `None` for the kinds
/// that are not written with letters.
pub open spec fn family_of(kind: TokenKind) -> Option<Family> {
    match kind {
        TokenKind::Year4
        | TokenKind::Year2
        | TokenKind::Era1
        | TokenKind::Era2
        | TokenKind::Gengou1
        | TokenKind::Gengou2
        | TokenKind::Gengou3 => Some(Family::Year),
        TokenKind::Month1
        | TokenKind::Month2
        | TokenKind::Month3
        | TokenKind::Month4
        | TokenKind::Month5 => Some(Family::Month),
        TokenKind::Day1
        | TokenKind::Day2
        | TokenKind::Dow3
        | TokenKind::Dow4
        | TokenKind::Youbi3
        | TokenKind::Youbi4 => Some(Family::Day),
        TokenKind::Hour1 | TokenKind::Hour2 => Some(Family::Hour),
        TokenKind::Minute1 | TokenKind::Minute2 => Some(Family::Minute),
        TokenKind::Second1 | TokenKind::Second2 => Some(Family::Second),
        _ => None,
    }
}

/// What the recogniser of a family reports at `pos`.
pub open spec fn family_token_at(s: Seq<char>, pos: int, family: Family) -> Option<Lexeme> {
    match family {
        Family::Year => year_at(s, pos),
        Family::Month => month_at(s, pos),
        Family::Day => day_at(s, pos),
        Family::Hour => hour_at(s, pos),
        Family::Minute => minute_at(s, pos),
        Family::Second => second_at(s, pos),
    }
}

/// What the recogniser of the family of `kind` reports at `pos`. `None`
/// for the kinds that are not written with letters.
pub open spec fn family_at(s: Seq<char>, pos: int, kind: TokenKind) -> Option<Lexeme> {
    match family_of(kind) {
        Some(family) => family_token_at(s, pos, family),
        None => None,
    }
}

/// Longest match. Wherever the pattern of a date or time kind stands, the
/// recogniser of its family reports a token, and that token is at least as
/// long as the pattern: a family never settles for a short alternative
/// while a longer one of its own stands at the same place.
pub proof fn lemma_longest_match(s: Seq<char>, pos: int, kind: TokenKind)
    requires
        letter_token_at(s, pos, kind) is Some,
    ensures
        family_at(s, pos, kind) matches Some(t) && t.start == pos && t.end
            >= letter_token_at(s, pos, kind).unwrap().end,
{
    lemma_letter_tags(kind);
    lemma_first_letter(s, pos, TokenKind::Year4);
    lemma_first_letter(s, pos, TokenKind::Year2);
    lemma_first_letter(s, pos, TokenKind::Era2);
    lemma_first_letter(s, pos, TokenKind::Era1);
    lemma_first_letter(s, pos, TokenKind::Gengou3);
    lemma_first_letter(s, pos, TokenKind::Gengou2);
    lemma_first_letter(s, pos, TokenKind::Gengou1);
    lemma_first_letter(s, pos, TokenKind::Youbi4);
    lemma_first_letter(s, pos, TokenKind::Youbi3);
    lemma_first_letter(s, pos, TokenKind::Dow4);
    lemma_first_letter(s, pos, TokenKind::Dow3);
    lemma_first_letter(s, pos, TokenKind::Day2);
    lemma_first_letter(s, pos, TokenKind::Day1);
}

proof fn lemma_year_reports_its_kind(s: Seq<char>, pos: int)
    ensures
        year_at(s, pos) matches Some(t) ==> letter_token_at(s, pos, t.kind) == Some(t)
            && family_at(s, pos, t.kind) == Some(t),
{
}

proof fn lemma_month_reports_its_kind(s: Seq<char>, pos: int)
    ensures
        month_at(s, pos) matches Some(t) ==> letter_token_at(s, pos, t.kind) == Some(t)
            && family_at(s, pos, t.kind) == Some(t),
{
}

proof fn lemma_day_reports_its_kind(s: Seq<char>, pos: int)
    ensures
        day_at(s, pos) matches Some(t) ==> letter_token_at(s, pos, t.kind) == Some(t)
            && family_at(s, pos, t.kind) == Some(t),
{
}

proof fn lemma_hour_reports_its_kind(s: Seq<char>, pos: int)
    ensures
        hour_at(s, pos) matches Some(t) ==> letter_token_at(s, pos, t.kind) == Some(t)
            && family_at(s, pos, t.kind) == Some(t),
{
}

proof fn lemma_minute_reports_its_kind(s: Seq<char>, pos: int)
    ensures
        minute_at(s, pos) matches Some(t) ==> letter_token_at(s, pos, t.kind) == Some(t)
            && family_at(s, pos, t.kind) == Some(t),
{
}

proof fn lemma_second_reports_its_kind(s: Seq<char>, pos: int)
    ensures
        second_at(s, pos) matches Some(t) ==> letter_token_at(s, pos, t.kind) == Some(t)
            && family_at(s, pos, t.kind) == Some(t),
{
}

/// The token that a family reports is itself a token of one of its kinds:
/// the pattern of the reported kind stands at `pos` and the token covers
/// exactly that pattern.
pub proof fn lemma_family_reports_its_kind(s: Seq<char>, pos: int, kind: TokenKind)
    ensures
        family_at(s, pos, kind) matches Some(t) ==> letter_token_at(s, pos, t.kind) == Some(t)
            && family_at(s, pos, t.kind) == Some(t),
{
    lemma_year_reports_its_kind(s, pos);
    lemma_month_reports_its_kind(s, pos);
    lemma_day_reports_its_kind(s, pos);
    lemma_hour_reports_its_kind(s, pos);
    lemma_minute_reports_its_kind(s, pos);
    lemma_second_reports_its_kind(s, pos);
}

/// Whether `c` is, in either case, one of the letters that the date and
/// time patterns are made of.
pub open spec fn is_date_letter(c: char) -> bool {
    let f = fold_case(c);
    f == fold_case('y') || f == fold_case('e') || f == fold_case('g') || f == fold_case('m') || f
        == fold_case('d') || f == fold_case('a') || f == fold_case('h') || f == fold_case('s')
}

/// A date or time token begins with a letter of the date and time
/// patterns: where no such letter stands, no family reports a token.
pub proof fn lemma_letter_tokens_need_letters(s: Seq<char>, pos: int)
    requires
        !(0 <= pos < s.len() && is_date_letter(s[pos])),
    ensures
        year_at(s, pos) is None,
        month_at(s, pos) is None,
        day_at(s, pos) is None,
        hour_at(s, pos) is None,
        minute_at(s, pos) is None,
        second_at(s, pos) is None,
{
    lemma_letter_tags(TokenKind::Year4);
    lemma_first_letter(s, pos, TokenKind::Year4);
    lemma_first_letter(s, pos, TokenKind::Year2);
    lemma_first_letter(s, pos, TokenKind::Era2);
    lemma_first_letter(s, pos, TokenKind::Era1);
    lemma_first_letter(s, pos, TokenKind::Gengou3);
    lemma_first_letter(s, pos, TokenKind::Gengou2);
    lemma_first_letter(s, pos, TokenKind::Gengou1);
    lemma_first_letter(s, pos, TokenKind::Month5);
    lemma_first_letter(s, pos, TokenKind::Month4);
    lemma_first_letter(s, pos, TokenKind::Month3);
    lemma_first_letter(s, pos, TokenKind::Month2);
    lemma_first_letter(s, pos, TokenKind::Month1);
    lemma_first_letter(s, pos, TokenKind::Youbi4);
    lemma_first_letter(s, pos, TokenKind::Youbi3);
    lemma_first_letter(s, pos, TokenKind::Dow4);
    lemma_first_letter(s, pos, TokenKind::Dow3);
    lemma_first_letter(s, pos, TokenKind::Day2);
    lemma_first_letter(s, pos, TokenKind::Day1);
    lemma_first_letter(s, pos, TokenKind::Hour2);
    lemma_first_letter(s, pos, TokenKind::Hour1);
    lemma_first_letter(s, pos, TokenKind::Minute2);
    lemma_first_letter(s, pos, TokenKind::Minute1);
    lemma_first_letter(s, pos, TokenKind::Second2);
    lemma_first_letter(s, pos, TokenKind::Second1);
}

/// Two tokens with the same view are the same token.
pub proof fn lemma_tokens_equal(a: Seq<Token>, b: Seq<Token>)
    requires
        lexemes(a) == lexemes(b),
    ensures
        a == b,
{
    assert(a.len() == lexemes(a).len());
    assert(b.len() == lexemes(b).len());
    assert forall|i: int| 0 <= i < a.len() implies a[i] == b[i] by {
        assert(lexemes(a)[i] == a[i]@);
        assert(lexemes(b)[i] == b[i]@);
    }
    assert(a =~= b);
}

} // verus!
