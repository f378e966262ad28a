//! A format code and what can be asked of it: whether it is a date and
//! time format or a numeric format, what its tokens are, and how a moment
//! looks when rendered by it.

use crate::calendar::{calendar_output, opt_text, DateTime, Moment};
use crate::date_time::{
    date_time_stream, group_at, hm_at, lemma_stream_contiguous, ms_at, single_at, stream_from,
    ymdhms,
};
use crate::era_jp::{
    abbreviation_of, era_of, get_abbreviation_name, get_name, get_short_name, get_year, name_of,
    short_name_of, year_in_era,
};
use crate::numeric::{
    color_part, filler_at, fillers_from, lemma_filler_advances, lemma_sections_well_formed,
    numeric_ary, numeric_sections, opt_sections, section_at, sections_view, MAX_SECTIONS,
};
use crate::text::{
    padded_decimal, push_padded_decimal, push_signed_decimal, signed_decimal, to_chars,
};
use crate::token::{
    color_at, contiguous, currency_jp_at, end_of, escaped_at, find_char, fragment_str, in_text,
    is_date_letter, lemma_contiguous_tokens, lemma_find_char, lemma_letter_tokens_need_letters,
    lemma_tokens_equal, lexemes, number_at, opt_lexemes, quoted_at, value_of, word_at, Lexeme,
    Token, TokenKind,
};
use vstd::prelude::*;
use vstd::string::{StrSliceExecFns, StringExecFns};

verus! {

/// A spreadsheet format code. It is made once from its source text and
/// only read from then on.
#[derive(Debug, Clone, PartialEq)]
pub struct Format {
    content: String,
}

impl View for Format {
    type V = Seq<char>;

    closed spec fn view(&self) -> Seq<char> {
        self.content@
    }
}

/// What a format code is.
#[derive(Clone, Copy, Debug, PartialEq, Eq, Structural)]
pub enum FormatKind {
    /// The code is a date and time format.
    DateTime,
    /// The code is a numeric format.
    Numeric,
    /// The code is neither.
    Unrecognized,
}

/// The kind of a format code. No code is both a date and time format and a
/// numeric format: see [`lemma_grammars_exclude_each_other`].
pub open spec fn kind_of(s: Seq<char>) -> FormatKind {
    if date_time_stream(s) is Some {
        FormatKind::DateTime
    } else if numeric_sections(s) is Some {
        FormatKind::Numeric
    } else {
        FormatKind::Unrecognized
    }
}

/// The characters of each string of a list.
pub open spec fn texts(strs: Seq<&str>) -> Seq<Seq<char>> {
    strs.map_values(|s: &str| s@)
}

/// The characters of each string of an optional list.
pub open spec fn opt_texts(strs: Option<Vec<&str>>) -> Option<Seq<Seq<char>>> {
    match strs {
        Some(v) => Some(texts(v@)),
        None => None,
    }
}

/// The texts that the tokens `ts`, found in `s`, contribute to a rendering.
pub open spec fn values_of(s: Seq<char>, ts: Seq<Lexeme>) -> Seq<Seq<char>> {
    ts.map_values(|t: Lexeme| value_of(s, t))
}

/// The rendering values of the date and time tokens of a format code, in
/// source order, if it is a date and time format.
pub open spec fn date_formats(s: Seq<char>) -> Option<Seq<Seq<char>>> {
    match date_time_stream(s) {
        Some(ts) => Some(values_of(s, ts)),
        None => None,
    }
}

/// The characters of each string of each section of a list.
pub open spec fn section_texts(sections: Seq<Vec<&str>>) -> Seq<Seq<Seq<char>>> {
    sections.map_values(|section: Vec<&str>| texts(section@))
}

/// The characters of each string of each section of an optional list.
pub open spec fn opt_section_texts(sections: Option<Vec<Vec<&str>>>) -> Option<
    Seq<Seq<Seq<char>>>,
> {
    match sections {
        Some(v) => Some(section_texts(v@)),
        None => None,
    }
}

/// The rendering values of the tokens of each section of a format code,
/// if it is a numeric format.
pub open spec fn numeric_formats(s: Seq<char>) -> Option<Seq<Seq<Seq<char>>>> {
    match numeric_sections(s) {
        Some(sections) => Some(
            sections.map_values(|section: Seq<Lexeme>| values_of(s, section)),
        ),
        None => None,
    }
}

/// What a token contributes to the calendar pattern for a given moment.
/// The era markers are replaced by the year within the era, unpadded or
/// filled to two digits, and the era-name markers by the era's name in the
/// form asked for. Every other token contributes its rendering value
/// unchanged, the markers of the month initial and of the weekday names
/// included.
pub open spec fn resolved(s: Seq<char>, t: Lexeme, moment: Moment) -> Seq<char> {
    match t.kind {
        TokenKind::Era1 => signed_decimal(year_in_era(moment)),
        TokenKind::Era2 => padded_decimal(year_in_era(moment)),
        TokenKind::Gengou1 => abbreviation_of(era_of(moment)),
        TokenKind::Gengou2 => short_name_of(era_of(moment)),
        TokenKind::Gengou3 => name_of(era_of(moment)),
        _ => value_of(s, t),
    }
}

/// The calendar pattern that the tokens `ts` make for a given moment:
/// what each contributes, joined in order.
pub open spec fn pattern_of(s: Seq<char>, ts: Seq<Lexeme>, moment: Moment) -> Seq<char>
    decreases ts.len(),
{
    if ts.len() == 0 {
        Seq::empty()
    } else {
        pattern_of(s, ts.drop_last(), moment) + resolved(s, ts.last(), moment)
    }
}

/// The calendar pattern of a format code for a given moment, if the code
/// is a date and time format.
pub open spec fn date_pattern(s: Seq<char>, moment: Moment) -> Option<Seq<char>> {
    match date_time_stream(s) {
        Some(ts) => Some(pattern_of(s, ts, moment)),
        None => None,
    }
}

/// The rendering of a moment by a format code: its calendar pattern for
/// that moment, handed to the calendar engine. `None` if the code is no
/// date and time format or the engine rejects the pattern.
pub open spec fn formatted_date(s: Seq<char>, moment: Moment) -> Option<Seq<char>> {
    match date_pattern(s, moment) {
        Some(pattern) => calendar_output(moment, pattern),
        None => None,
    }
}

fn token_str<'a>(content: &'a str, t: Token) -> (r: &'a str)
    requires
        in_text(content@, t@),
    ensures
        r@ == value_of(content@, t@),
{
    match t.kind {
        TokenKind::Quoted => content.substring_char(t.start + 1, t.end - 1),
        TokenKind::Escaped => content.substring_char(t.start + 1, t.end),
        TokenKind::Special | TokenKind::Number => content.substring_char(t.start, t.end),
        _ => fragment_str(t.kind),
    }
}

fn token_strs<'a>(content: &'a str, tokens: &Vec<Token>) -> (r: Vec<&'a str>)
    requires
        forall|i: int| 0 <= i < tokens@.len() ==> in_text(content@, #[trigger] lexemes(tokens@)[i]),
    ensures
        texts(r@) == values_of(content@, lexemes(tokens@)),
{
    let mut values: Vec<&'a str> = Vec::new();
    for i in 0..tokens.len()
        invariant
            forall|i: int|
                0 <= i < tokens@.len() ==> in_text(content@, #[trigger] lexemes(tokens@)[i]),
            texts(values@) == values_of(content@, lexemes(tokens@).take(i as int)),
    {
        assert(in_text(content@, lexemes(tokens@)[i as int]));
        let value = token_str(content, tokens[i]);
        let ghost before = values@;
        values.push(value);
        proof {
            let ts = lexemes(tokens@);
            assert(texts(before.push(value)) =~= texts(before).push(value@));
            assert(ts.take(i + 1) =~= ts.take(i as int).push(ts[i as int]));
            assert(values_of(content@, ts.take(i as int).push(ts[i as int])) =~= values_of(
                content@,
                ts.take(i as int),
            ).push(value_of(content@, ts[i as int])));
        }
    }
    assert(lexemes(tokens@).take(tokens@.len() as int) =~= lexemes(tokens@));
    values
}

fn push_resolved(out: &mut String, content: &str, t: Token, dt: &DateTime)
    requires
        in_text(content@, t@),
    ensures
        final(out)@ == old(out)@ + resolved(content@, t@, dt@),
{
    match t.kind {
        TokenKind::Era1 => push_signed_decimal(out, get_year(dt)),
        TokenKind::Era2 => push_padded_decimal(out, get_year(dt)),
        TokenKind::Gengou1 => out.append(get_abbreviation_name(dt)),
        TokenKind::Gengou2 => out.append(get_short_name(dt)),
        TokenKind::Gengou3 => out.append(get_name(dt)),
        _ => out.append(token_str(content, t)),
    }
}

impl Format {
    /// The format code with the given source text.
    pub fn new(content: &str) -> (r: Format)
        ensures
            r@ == content@,
    {
        Format { content: content.to_owned() }
    }

    /// The source text.
    pub fn get_content(&self) -> (r: &String)
        ensures
            r@ == self@,
    {
        &self.content
    }

    /// Whether `value` is a date and time format.
    pub fn is_ymdhm(value: &str) -> (r: bool)
        ensures
            r == date_time_stream(value@) is Some,
    {
        let chars = to_chars(value);
        ymdhms(chars.as_slice()).is_some()
    }

    /// Whether `value` is a numeric format.
    pub fn is_numeric_ary(value: &str) -> (r: bool)
        ensures
            r == numeric_sections(value@) is Some,
    {
        let chars = to_chars(value);
        numeric_ary(chars.as_slice()).is_some()
    }

    /// The kind of the code.
    pub fn classify(&self) -> (r: FormatKind)
        ensures
            r == kind_of(self@),
    {
        let chars = to_chars(self.content.as_str());
        if ymdhms(chars.as_slice()).is_some() {
            FormatKind::DateTime
        } else if numeric_ary(chars.as_slice()).is_some() {
            FormatKind::Numeric
        } else {
            FormatKind::Unrecognized
        }
    }

    /// The date and time tokens of the code, if it is a date and time format.
    pub fn get_date_tokens(&self) -> (r: Option<Vec<Token>>)
        ensures
            opt_lexemes(r) == date_time_stream(self@),
    {
        let chars = to_chars(self.content.as_str());
        ymdhms(chars.as_slice())
    }

    /// The sections of the code, if it is a numeric format.
    pub fn get_numeric_tokens(&self) -> (r: Option<Vec<Vec<Token>>>)
        ensures
            opt_sections(r) == numeric_sections(self@),
    {
        let chars = to_chars(self.content.as_str());
        numeric_ary(chars.as_slice())
    }

    /// The rendering values of the date and time tokens of the code, if it
    /// is a date and time format.
    pub fn get_date_formats(&self) -> (r: Option<Vec<&str>>)
        ensures
            opt_texts(r) == date_formats(self@),
    {
        match self.get_date_tokens() {
            Some(tokens) => {
                proof {
                    lemma_stream_contiguous(self@, 0);
                    lemma_contiguous_tokens(self@, 0, lexemes(tokens@));
                }
                Some(token_strs(self.content.as_str(), &tokens))
            },
            None => None,
        }
    }

    /// The rendering values of the tokens of each section of the code, if
    /// it is a numeric format.
    pub fn get_numeric_formats(&self) -> (r: Option<Vec<Vec<&str>>>)
        ensures
            opt_section_texts(r) == numeric_formats(self@),
    {
        let sections = match self.get_numeric_tokens() {
            Some(sections) => sections,
            None => {
                return None;
            },
        };
        proof {
            lemma_sections_well_formed(self@, 0, MAX_SECTIONS as nat);
        }
        let ghost all = sections_view(sections@);
        let mut values: Vec<Vec<&str>> = Vec::new();
        for i in 0..sections.len()
            invariant
                all == sections_view(sections@),
                forall|k: int|
                    0 <= k < all.len() ==> (#[trigger] all[k]).len() >= 1 && contiguous(
                        self@,
                        all[k][0].start,
                        all[k],
                    ),
                section_texts(values@) == all.take(i as int).map_values(
                    |section: Seq<Lexeme>| values_of(self@, section),
                ),
        {
            let section = &sections[i];
            proof {
                assert(all[i as int] == lexemes(section@));
                lemma_contiguous_tokens(self@, all[i as int][0].start, all[i as int]);
            }
            let ghost before = values@;
            let section_values = token_strs(self.content.as_str(), section);
            values.push(section_values);
            proof {
                let f = |section: Seq<Lexeme>| values_of(self@, section);
                assert(section_texts(before.push(section_values)) =~= section_texts(before).push(
                    texts(section_values@),
                ));
                assert(all.take(i + 1) =~= all.take(i as int).push(all[i as int]));
                assert(all.take(i as int).push(all[i as int]).map_values(f) =~= all.take(
                    i as int,
                ).map_values(f).push(f(all[i as int])));
            }
        }
        assert(all.take(sections@.len() as int) =~= all);
        Some(values)
    }

    /// The calendar pattern of the code for the moment `dt`, if the code
    /// is a date and time format.
    pub fn get_date_pattern(&self, dt: &DateTime) -> (r: Option<String>)
        ensures
            opt_text(r) == date_pattern(self@, dt@),
    {
        let tokens = match self.get_date_tokens() {
            Some(tokens) => tokens,
            None => {
                return None;
            },
        };
        proof {
            lemma_stream_contiguous(self@, 0);
            lemma_contiguous_tokens(self@, 0, lexemes(tokens@));
        }
        let mut pattern = String::new();
        for i in 0..tokens.len()
            invariant
                forall|i: int|
                    0 <= i < tokens@.len() ==> in_text(self@, #[trigger] lexemes(tokens@)[i]),
                pattern@ == pattern_of(self@, lexemes(tokens@).take(i as int), dt@),
        {
            assert(in_text(self@, lexemes(tokens@)[i as int]));
            proof {
                let upto = lexemes(tokens@).take(i + 1);
                assert(upto.drop_last() =~= lexemes(tokens@).take(i as int));
                assert(upto.last() == tokens@[i as int]@);
            }
            push_resolved(&mut pattern, self.content.as_str(), tokens[i], dt);
        }
        assert(lexemes(tokens@).take(tokens@.len() as int) =~= lexemes(tokens@));
        Some(pattern)
    }

    /// Renders the moment `dt` by the code: `None` if the code is no date
    /// and time format, or if the calendar engine rejects the pattern that
    /// the code makes.
    pub fn get_formated_date(&self, dt: &DateTime) -> (r: Option<String>)
        ensures
            opt_text(r) == formatted_date(self@, dt@),
    {
        match self.get_date_pattern(dt) {
            Some(pattern) => dt.format(pattern.as_str()),
            None => None,
        }
    }
}

/// The pattern of two lists of tokens, one behind the other, is the
/// pattern of the first followed by the pattern of the second.
pub proof fn lemma_pattern_of_concat(s: Seq<char>, a: Seq<Lexeme>, b: Seq<Lexeme>, moment: Moment)
    ensures
        pattern_of(s, a + b, moment) == pattern_of(s, a, moment) + pattern_of(s, b, moment),
    decreases b.len(),
{
    if b.len() == 0 {
        assert(a + b =~= a);
        assert(pattern_of(s, a, moment) + Seq::<char>::empty() =~= pattern_of(s, a, moment));
    } else {
        lemma_pattern_of_concat(s, a, b.drop_last(), moment);
        assert((a + b).drop_last() =~= a + b.drop_last());
        assert((a + b).last() == b.last());
        assert((pattern_of(s, a, moment) + pattern_of(s, b.drop_last(), moment)) + resolved(
            s,
            b.last(),
            moment,
        ) =~= pattern_of(s, a, moment) + (pattern_of(s, b.drop_last(), moment) + resolved(
            s,
            b.last(),
            moment,
        )));
    }
}

/// Every token stands in the calendar pattern in one piece and in source
/// order: the pattern is what the tokens before it make, then what the
/// token contributes, then what the tokens behind it make. For quoted
/// text, an escaped character and a separator the contribution is the
/// literal text itself.
pub proof fn lemma_pattern_holds_each_token(s: Seq<char>, ts: Seq<Lexeme>, i: int, moment: Moment)
    requires
        0 <= i < ts.len(),
    ensures
        pattern_of(s, ts, moment) == pattern_of(s, ts.take(i), moment) + resolved(
            s,
            ts[i],
            moment,
        ) + pattern_of(s, ts.skip(i + 1), moment),
        ts[i].kind == TokenKind::Quoted || ts[i].kind == TokenKind::Escaped || ts[i].kind
            == TokenKind::Special ==> resolved(s, ts[i], moment) == value_of(s, ts[i]),
{
    let upto = ts.take(i + 1);
    assert(ts =~= upto + ts.skip(i + 1));
    lemma_pattern_of_concat(s, upto, ts.skip(i + 1), moment);
    assert(upto.drop_last() =~= ts.take(i));
    assert(upto.last() == ts[i]);
}

/// A format code that is one literal token and nothing else: its stream
/// is that token, and its pattern is the text of the token.
proof fn lemma_single_literal(s: Seq<char>, t: Lexeme, moment: Moment)
    requires
        s.len() > 0,
        !is_date_letter(s[0]),
        word_at(s, 0) == Some(t),
        t.end == s.len(),
    ensures
        date_time_stream(s) == Some(seq![t]),
        date_pattern(s, moment) == Some(value_of(s, t)),
{
    lemma_letter_tokens_need_letters(s, 0);
    assert(hm_at(s, 0) is None);
    assert(ms_at(s, 0) is None);
    assert(single_at(s, 0) == Some(t));
    assert(group_at(s, 0) == Some(seq![t]));
    assert(stream_from(s, t.end) == Some(Seq::<Lexeme>::empty()));
    assert(seq![t] + Seq::<Lexeme>::empty() =~= seq![t]);
    assert(seq![t].drop_last() =~= Seq::<Lexeme>::empty());
    assert(pattern_of(s, Seq::<Lexeme>::empty(), moment) =~= Seq::<char>::empty());
    assert(pattern_of(s, seq![t], moment) =~= value_of(s, t));
}

/// A format code made of one quoted text has that text as its calendar
/// pattern, character for character.
pub proof fn lemma_quoted_text_is_the_pattern(text: Seq<char>, moment: Moment)
    requires
        !text.contains('"'),
    ensures
        date_pattern(seq!['"'] + text + seq!['"'], moment) == Some(text),
{
    let s = seq!['"'] + text + seq!['"'];
    let end = s.len() as int;
    assert forall|i: int| 1 <= i < end - 1 implies s[i] != '"' by {
        assert(s[i] == text[i - 1]);
        assert(text.contains(text[i - 1]));
    }
    lemma_find_char(s, 1, '"');
    let close = find_char(s, 1, '"');
    assert(s[end - 1] == '"');
    assert(close == end - 1);
    let t = Lexeme { kind: TokenKind::Quoted, start: 0, end };
    assert(quoted_at(s, 0) == Some(t));
    lemma_single_literal(s, t, moment);
    assert(value_of(s, t) =~= text);
}

/// Literal preservation. A format code made of one quoted text renders
/// every moment as that text, untouched, provided the text holds no `%`:
/// the calendar engine reads a `%` as the start of a directive.
pub proof fn lemma_quoted_text_is_rendered_verbatim(text: Seq<char>, moment: Moment)
    requires
        !text.contains('"'),
        !text.contains('%'),
    ensures
        formatted_date(seq!['"'] + text + seq!['"'], moment) == Some(text),
{
    lemma_quoted_text_is_the_pattern(text, moment);
}

/// A format code made of a backslash and one character has that
/// character as its calendar pattern.
pub proof fn lemma_escaped_character_is_the_pattern(c: char, moment: Moment)
    ensures
        date_pattern(seq!['\\', c], moment) == Some(seq![c]),
{
    let s = seq!['\\', c];
    let t = Lexeme { kind: TokenKind::Escaped, start: 0, end: 2 };
    assert(quoted_at(s, 0) is None);
    assert(escaped_at(s, 0) == Some(t));
    lemma_single_literal(s, t, moment);
    assert(value_of(s, t) =~= seq![c]);
}

/// Escaped characters. A format code made of a backslash and one
/// character renders every moment as exactly that character, provided the
/// character is not `%`, which the calendar engine reads as the start of a
/// directive.
pub proof fn lemma_escaped_character_is_rendered_alone(c: char, moment: Moment)
    requires
        c != '%',
    ensures
        formatted_date(seq!['\\', c], moment) == Some(seq![c]),
{
    lemma_escaped_character_is_the_pattern(c, moment);
    assert(!seq![c].contains('%'));
}

/// Classification is a function of the text: two classifications of the
/// same format code, as [`Format::get_date_tokens`] reports them, agree on
/// whether the code is a date and time format and on every token.
pub proof fn lemma_classification_repeats(
    s: Seq<char>,
    first: Option<Vec<Token>>,
    second: Option<Vec<Token>>,
)
    requires
        opt_lexemes(first) == date_time_stream(s),
        opt_lexemes(second) == date_time_stream(s),
    ensures
        first is Some <==> second is Some,
        first is Some ==> first.unwrap()@ == second.unwrap()@,
{
    if first is Some {
        lemma_tokens_equal(first.unwrap()@, second.unwrap()@);
    }
}

/// A colour or currency marker begins with a square bracket.
proof fn lemma_markers_begin_with_bracket(s: Seq<char>, pos: int)
    ensures
        color_at(s, pos) is Some ==> 0 <= pos < s.len() && s[pos] == '[',
        currency_jp_at(s, pos) is Some ==> 0 <= pos < s.len() && s[pos] == '[',
{
    reveal_strlit("[$￥-411]");
    reveal_strlit("[赤]");
    reveal_strlit("[RED]");
    reveal_strlit("[黒]");
    reveal_strlit("[BLACK]");
    if color_at(s, pos) is Some || currency_jp_at(s, pos) is Some {
        assert("[$￥-411]"@[0] == '[');
        assert("[赤]"@[0] == '[');
        assert("[RED]"@[0] == '[');
        assert("[黒]"@[0] == '[');
        assert("[BLACK]"@[0] == '[');
        assert(s[pos + 0] == '[');
    }
}

/// Where filler tokens lead up to a numeric mask, the date and time
/// grammar comes to a character that is none of its tokens.
proof fn lemma_no_stream_before_mask(s: Seq<char>, pos: int)
    requires
        0 <= pos <= s.len(),
        number_at(s, end_of(pos, fillers_from(s, pos))) is Some,
    ensures
        stream_from(s, pos) is None,
    decreases s.len() - pos,
{
    lemma_filler_advances(s, pos);
    lemma_markers_begin_with_bracket(s, pos);
    lemma_letter_tokens_need_letters(s, pos);
    match filler_at(s, pos) {
        Some(t) => {
            let rest = fillers_from(s, t.end);
            assert(end_of(pos, seq![t] + rest) == end_of(t.end, rest)) by {
                if rest.len() > 0 {
                    assert((seq![t] + rest).last() == rest.last());
                }
            }
            if word_at(s, pos) is Some {
                assert(hm_at(s, pos) is None);
                assert(ms_at(s, pos) is None);
                assert(group_at(s, pos) == Some(seq![t]));
                lemma_no_stream_before_mask(s, t.end);
            } else {
                assert(group_at(s, pos) is None);
            }
        },
        None => {
            assert(group_at(s, pos) is None);
        },
    }
}

/// The two grammars exclude each other: no format code is both a numeric
/// format and a date and time format.
pub proof fn lemma_grammars_exclude_each_other(s: Seq<char>)
    ensures
        !(numeric_sections(s) is Some && date_time_stream(s) is Some),
{
    if numeric_sections(s) is Some {
        assert(section_at(s, 0) is Some);
        lemma_markers_begin_with_bracket(s, 0);
        if color_at(s, 0) is Some {
            lemma_letter_tokens_need_letters(s, 0);
            assert(group_at(s, 0) is None);
        } else {
            assert(color_part(s, 0) =~= Seq::<Lexeme>::empty());
            lemma_no_stream_before_mask(s, 0);
        }
    }
}

} // verus!
