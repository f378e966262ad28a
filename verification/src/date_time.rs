//! The date and time grammar: a format code read as a sequence of token groups.
//!
//! At every position the groups are tried in a fixed order: an hour-minute
//! pair, a minute-second pair, then a single second, hour, year, month, day
//! or literal token. The first that matches is taken and reading goes on
//! behind it. A position at which none matches makes the whole code
//! unrecognised.
//!
//! A pair is two tokens with or without one literal token between them,
//! so that `hh:mm` and `hhmm` both read as hours and minutes. Outside a
//! pair an `m` is a month.

use crate::token::{
    advances, contiguous, day, day_at, end_of, family_at, family_of, hour, hour_at, is_verbatim,
    lemma_contiguous_concat, lemma_contiguous_one, lemma_family_reports_its_kind,
    lemma_letter_tokens_need_letters, lemma_longest_match, lemma_tokens_advance, letter_token_at,
    lexemes, minute, minute_at, month, month_at, opt_lexeme, opt_lexemes, or_else, second,
    second_at, word, word_at, year, year_at, Family, Lexeme, Token, TokenKind,
};
use vstd::prelude::*;

verus! {

/// An hour-minute pair at `pos`: an hour token, then a literal token if
/// one stands there, then a minute token. The pair holds two or three
/// tokens.
pub open spec fn hm_at(s: Seq<char>, pos: int) -> Option<Seq<Lexeme>> {
    match hour_at(s, pos) {
        Some(h) => match word_at(s, h.end) {
            Some(w) => match minute_at(s, w.end) {
                Some(m) => Some(seq![h, w, m]),
                None => None,
            },
            None => match minute_at(s, h.end) {
                Some(m) => Some(seq![h, m]),
                None => None,
            },
        },
        None => None,
    }
}

/// A minute-second pair at `pos`: a minute token, then a literal token if
/// one stands there, then a second token. The pair holds two or three
/// tokens.
pub open spec fn ms_at(s: Seq<char>, pos: int) -> Option<Seq<Lexeme>> {
    match minute_at(s, pos) {
        Some(m) => match word_at(s, m.end) {
            Some(w) => match second_at(s, w.end) {
                Some(sec) => Some(seq![m, w, sec]),
                None => None,
            },
            None => match second_at(s, m.end) {
                Some(sec) => Some(seq![m, sec]),
                None => None,
            },
        },
        None => None,
    }
}

/// A single token at `pos` outside a pair: second, hour, year, month, day
/// or literal, in this order.
pub open spec fn single_at(s: Seq<char>, pos: int) -> Option<Lexeme> {
    or_else(
        second_at(s, pos),
        or_else(
            hour_at(s, pos),
            or_else(
                year_at(s, pos),
                or_else(month_at(s, pos), or_else(day_at(s, pos), word_at(s, pos))),
            ),
        ),
    )
}

/// The token group at `pos`: one to three tokens.
pub open spec fn group_at(s: Seq<char>, pos: int) -> Option<Seq<Lexeme>> {
    if hm_at(s, pos) is Some {
        hm_at(s, pos)
    } else if ms_at(s, pos) is Some {
        ms_at(s, pos)
    } else {
        match single_at(s, pos) {
            Some(t) => Some(seq![t]),
            None => None,
        }
    }
}

proof fn lemma_pair_well_formed(s: Seq<char>, pos: int, a: Lexeme, b: Lexeme)
    requires
        advances(s, pos, Some(a)),
        advances(s, a.end, Some(b)),
    ensures
        contiguous(s, pos, seq![a, b]),
{
    lemma_contiguous_one(s, pos, a);
    lemma_contiguous_one(s, a.end, b);
    lemma_contiguous_concat(s, pos, seq![a], seq![b]);
    assert(seq![a] + seq![b] =~= seq![a, b]);
}

proof fn lemma_separated_pair_well_formed(
    s: Seq<char>,
    pos: int,
    a: Lexeme,
    b: Lexeme,
    c: Lexeme,
)
    requires
        advances(s, pos, Some(a)),
        advances(s, a.end, Some(b)),
        advances(s, b.end, Some(c)),
    ensures
        contiguous(s, pos, seq![a, b, c]),
{
    lemma_pair_well_formed(s, pos, a, b);
    lemma_contiguous_one(s, b.end, c);
    lemma_contiguous_concat(s, pos, seq![a, b], seq![c]);
    assert(seq![a, b] + seq![c] =~= seq![a, b, c]);
}

proof fn lemma_hm_well_formed(s: Seq<char>, pos: int)
    ensures
        hm_at(s, pos) matches Some(g) ==> 2 <= g.len() <= 3 && contiguous(s, pos, g) && pos
            < g.last().end <= s.len(),
{
    lemma_tokens_advance(s, pos);
    if let Some(h) = hour_at(s, pos) {
        lemma_tokens_advance(s, h.end);
        if let Some(w) = word_at(s, h.end) {
            lemma_tokens_advance(s, w.end);
            if let Some(m) = minute_at(s, w.end) {
                lemma_separated_pair_well_formed(s, pos, h, w, m);
            }
        } else if let Some(m) = minute_at(s, h.end) {
            lemma_pair_well_formed(s, pos, h, m);
        }
    }
}

proof fn lemma_ms_well_formed(s: Seq<char>, pos: int)
    ensures
        ms_at(s, pos) matches Some(g) ==> 2 <= g.len() <= 3 && contiguous(s, pos, g) && pos
            < g.last().end <= s.len(),
{
    lemma_tokens_advance(s, pos);
    if let Some(m) = minute_at(s, pos) {
        lemma_tokens_advance(s, m.end);
        if let Some(w) = word_at(s, m.end) {
            lemma_tokens_advance(s, w.end);
            if let Some(sec) = second_at(s, w.end) {
                lemma_separated_pair_well_formed(s, pos, m, w, sec);
            }
        } else if let Some(sec) = second_at(s, m.end) {
            lemma_pair_well_formed(s, pos, m, sec);
        }
    }
}

/// Every group that the grammar reports holds one to three tokens that
/// follow each other without a gap from `pos` on, and ends behind `pos`.
pub proof fn lemma_group_well_formed(s: Seq<char>, pos: int)
    ensures
        group_at(s, pos) matches Some(g) ==> 1 <= g.len() <= 3 && contiguous(s, pos, g) && pos
            < g.last().end <= s.len(),
{
    lemma_hm_well_formed(s, pos);
    lemma_ms_well_formed(s, pos);
    lemma_tokens_advance(s, pos);
    if let Some(t) = single_at(s, pos) {
        lemma_contiguous_one(s, pos, t);
    }
}

/// The token stream of `s` from `pos` on: the groups found one behind the
/// other up to the end of the text, flattened. `None` if some position is
/// reached at which no group starts.
pub open spec fn stream_from(s: Seq<char>, pos: int) -> Option<Seq<Lexeme>>
    decreases s.len() - pos,
    via stream_from_decreases
{
    if pos >= s.len() {
        Some(Seq::empty())
    } else {
        match group_at(s, pos) {
            Some(g) => match stream_from(s, g.last().end) {
                Some(rest) => Some(g + rest),
                None => None,
            },
            None => None,
        }
    }
}

#[via_fn]
proof fn stream_from_decreases(s: Seq<char>, pos: int) {
    lemma_group_well_formed(s, pos);
}

/// The date and time token stream of a format code, if it is one.
pub open spec fn date_time_stream(s: Seq<char>) -> Option<Seq<Lexeme>> {
    stream_from(s, 0)
}

/// Recognises an hour-minute pair at `pos`, with or without a literal
/// token between the two.
pub fn hm(chars: &[char], pos: usize) -> (r: Option<Vec<Token>>)
    ensures
        opt_lexemes(r) == hm_at(chars@, pos as int),
{
    let h = match hour(chars, pos) {
        Some(t) => t,
        None => {
            return None;
        },
    };
    match word(chars, h.end) {
        Some(w) => match minute(chars, w.end) {
            Some(m) => {
                let group = vec![h, w, m];
                assert(lexemes(group@) =~= seq![h@, w@, m@]);
                Some(group)
            },
            None => None,
        },
        None => match minute(chars, h.end) {
            Some(m) => {
                let group = vec![h, m];
                assert(lexemes(group@) =~= seq![h@, m@]);
                Some(group)
            },
            None => None,
        },
    }
}

/// Recognises a minute-second pair at `pos`, with or without a literal
/// token between the two.
pub fn ms(chars: &[char], pos: usize) -> (r: Option<Vec<Token>>)
    ensures
        opt_lexemes(r) == ms_at(chars@, pos as int),
{
    let m = match minute(chars, pos) {
        Some(t) => t,
        None => {
            return None;
        },
    };
    match word(chars, m.end) {
        Some(w) => match second(chars, w.end) {
            Some(sec) => {
                let group = vec![m, w, sec];
                assert(lexemes(group@) =~= seq![m@, w@, sec@]);
                Some(group)
            },
            None => None,
        },
        None => match second(chars, m.end) {
            Some(sec) => {
                let group = vec![m, sec];
                assert(lexemes(group@) =~= seq![m@, sec@]);
                Some(group)
            },
            None => None,
        },
    }
}

/// Recognises a single token outside a pair at `pos`.
pub fn single(chars: &[char], pos: usize) -> (r: Option<Token>)
    ensures
        opt_lexeme(r) == single_at(chars@, pos as int),
{
    let r = second(chars, pos);
    if r.is_some() {
        return r;
    }
    let r = hour(chars, pos);
    if r.is_some() {
        return r;
    }
    let r = year(chars, pos);
    if r.is_some() {
        return r;
    }
    let r = month(chars, pos);
    if r.is_some() {
        return r;
    }
    let r = day(chars, pos);
    if r.is_some() {
        return r;
    }
    word(chars, pos)
}

/// Recognises the token group at `pos`.
pub fn group(chars: &[char], pos: usize) -> (r: Option<Vec<Token>>)
    ensures
        opt_lexemes(r) == group_at(chars@, pos as int),
{
    let r = hm(chars, pos);
    if r.is_some() {
        return r;
    }
    let r = ms(chars, pos);
    if r.is_some() {
        return r;
    }
    match single(chars, pos) {
        Some(t) => {
            let group = vec![t];
            assert(lexemes(group@) =~= seq![t@]);
            Some(group)
        },
        None => None,
    }
}

/// One step of [`stream_from`]: behind a group found at `pos`, the stream
/// goes on from the end of that group.
pub proof fn lemma_stream_step(s: Seq<char>, pos: int, before: Seq<Lexeme>, g: Seq<Lexeme>)
    requires
        0 <= pos < s.len(),
        group_at(s, pos) == Some(g),
    ensures
        g.len() >= 1,
        pos < g.last().end <= s.len(),
        (match stream_from(s, pos) {
            Some(rest) => Some(before + rest),
            None => None,
        }) == (match stream_from(s, g.last().end) {
            Some(rest) => Some((before + g) + rest),
            None => None,
        }),
{
    lemma_group_well_formed(s, pos);
    if let Some(rest) = stream_from(s, g.last().end) {
        assert((before + g) + rest =~= before + (g + rest));
    }
}

/// Reads the whole of `chars` as a date and time format. Returns the
/// flattened token stream, or `None` if some part of the text is no token
/// of the grammar.
pub fn ymdhms(chars: &[char]) -> (r: Option<Vec<Token>>)
    ensures
        opt_lexemes(r) == date_time_stream(chars@),
{
    let mut stream: Vec<Token> = Vec::new();
    let mut pos: usize = 0;
    while pos < chars.len()
        invariant
            pos <= chars@.len(),
            date_time_stream(chars@) == match stream_from(chars@, pos as int) {
                Some(rest) => Some(lexemes(stream@) + rest),
                None => None,
            },
        decreases chars@.len() - pos,
    {
        let mut found = match group(chars, pos) {
            Some(g) => g,
            None => {
                return None;
            },
        };
        proof {
            lemma_stream_step(chars@, pos as int, lexemes(stream@), lexemes(found@));
            assert(lexemes(stream@ + found@) =~= lexemes(stream@) + lexemes(found@));
        }
        pos = found[found.len() - 1].end;
        stream.append(&mut found);
    }
    assert(lexemes(stream@) + Seq::<Lexeme>::empty() =~= lexemes(stream@));
    Some(stream)
}

/// The tokens of a stream tile the text: they follow each other without a
/// gap from `pos` to the end of the text, in source order.
pub proof fn lemma_stream_contiguous(s: Seq<char>, pos: int)
    requires
        0 <= pos <= s.len(),
    ensures
        stream_from(s, pos) matches Some(ts) ==> contiguous(s, pos, ts) && end_of(pos, ts)
            == s.len(),
    decreases s.len() - pos,
{
    if pos < s.len() {
        lemma_group_well_formed(s, pos);
        if let Some(g) = group_at(s, pos) {
            lemma_stream_contiguous(s, g.last().end);
            if let Some(rest) = stream_from(s, g.last().end) {
                lemma_contiguous_concat(s, pos, g, rest);
            }
        }
    }
}

/// A date or time token is the one that the recogniser of its family
/// reports at the place where the token starts.
pub open spec fn reported_by_family(s: Seq<char>, t: Lexeme) -> bool {
    family_of(t.kind) is Some ==> family_at(s, t.start, t.kind) == Some(t)
}

proof fn lemma_family_token_reported(s: Seq<char>, pos: int, kind: TokenKind)
    ensures
        family_at(s, pos, kind) matches Some(t) ==> t.start == pos && reported_by_family(s, t),
{
    lemma_family_reports_its_kind(s, pos, kind);
    lemma_tokens_advance(s, pos);
}

proof fn lemma_word_reported(s: Seq<char>, pos: int)
    ensures
        word_at(s, pos) matches Some(t) ==> t.start == pos && reported_by_family(s, t),
{
}

proof fn lemma_hm_tokens_reported(s: Seq<char>, pos: int)
    ensures
        hm_at(s, pos) matches Some(g) ==> forall|i: int|
            0 <= i < g.len() ==> reported_by_family(s, #[trigger] g[i]),
{
    lemma_family_token_reported(s, pos, TokenKind::Hour1);
    if let Some(h) = hour_at(s, pos) {
        lemma_word_reported(s, h.end);
        lemma_family_token_reported(s, h.end, TokenKind::Minute1);
        if let Some(w) = word_at(s, h.end) {
            lemma_family_token_reported(s, w.end, TokenKind::Minute1);
        }
    }
}

proof fn lemma_ms_tokens_reported(s: Seq<char>, pos: int)
    ensures
        ms_at(s, pos) matches Some(g) ==> forall|i: int|
            0 <= i < g.len() ==> reported_by_family(s, #[trigger] g[i]),
{
    lemma_family_token_reported(s, pos, TokenKind::Minute1);
    if let Some(m) = minute_at(s, pos) {
        lemma_word_reported(s, m.end);
        lemma_family_token_reported(s, m.end, TokenKind::Second1);
        if let Some(w) = word_at(s, m.end) {
            lemma_family_token_reported(s, w.end, TokenKind::Second1);
        }
    }
}

proof fn lemma_single_token_reported(s: Seq<char>, pos: int)
    ensures
        single_at(s, pos) matches Some(t) ==> reported_by_family(s, t),
{
    lemma_family_token_reported(s, pos, TokenKind::Year4);
    lemma_family_token_reported(s, pos, TokenKind::Month1);
    lemma_family_token_reported(s, pos, TokenKind::Day1);
    lemma_family_token_reported(s, pos, TokenKind::Hour1);
    lemma_family_token_reported(s, pos, TokenKind::Second1);
    lemma_word_reported(s, pos);
}

proof fn lemma_group_tokens_reported(s: Seq<char>, pos: int)
    ensures
        group_at(s, pos) matches Some(g) ==> forall|i: int|
            0 <= i < g.len() ==> reported_by_family(s, #[trigger] g[i]),
{
    lemma_hm_tokens_reported(s, pos);
    lemma_ms_tokens_reported(s, pos);
    lemma_single_token_reported(s, pos);
}

/// Every date or time token of a stream is the token that its family
/// reports at its place.
pub proof fn lemma_stream_tokens_reported(s: Seq<char>, pos: int)
    requires
        0 <= pos <= s.len(),
    ensures
        stream_from(s, pos) matches Some(ts) ==> forall|i: int|
            0 <= i < ts.len() ==> reported_by_family(s, #[trigger] ts[i]),
    decreases s.len() - pos,
{
    if pos < s.len() {
        lemma_group_well_formed(s, pos);
        lemma_group_tokens_reported(s, pos);
        if let Some(g) = group_at(s, pos) {
            lemma_stream_tokens_reported(s, g.last().end);
        }
    }
}

/// Longest match in a stream. No token of a date and time stream is cut
/// short: where a token of the stream starts, no pattern of the same
/// family reaches further than the token does.
pub proof fn lemma_stream_takes_longest(s: Seq<char>, i: int, kind: TokenKind)
    requires
        date_time_stream(s) is Some,
        0 <= i < date_time_stream(s).unwrap().len(),
        family_of(kind) is Some,
        family_of(kind) == family_of(date_time_stream(s).unwrap()[i].kind),
        letter_token_at(s, date_time_stream(s).unwrap()[i].start, kind) is Some,
    ensures
        letter_token_at(s, date_time_stream(s).unwrap()[i].start, kind).unwrap().end
            <= date_time_stream(s).unwrap()[i].end,
{
    let t = date_time_stream(s).unwrap()[i];
    lemma_stream_tokens_reported(s, 0);
    assert(reported_by_family(s, t));
    lemma_longest_match(s, t.start, kind);
}

/// Where a literal token stands, no minute or second token stands.
proof fn lemma_literal_excludes_time(s: Seq<char>, pos: int)
    ensures
        word_at(s, pos) is Some ==> minute_at(s, pos) is None && second_at(s, pos) is None,
{
    if word_at(s, pos) is Some {
        lemma_letter_tokens_need_letters(s, pos);
    }
}

/// The shape of a pair. An hour-minute pair begins with an hour token and
/// ends with a minute token, a minute-second pair begins with a minute
/// token and ends with a second token. Each holds two tokens, or three
/// with a literal token in the middle: the literal is optional, and an
/// `m` behind an hour or before a second is a minute whether or not a
/// literal stands between them.
pub proof fn lemma_pair_shape(s: Seq<char>, pos: int)
    ensures
        hm_at(s, pos) matches Some(g) ==> {
            &&& 2 <= g.len() <= 3
            &&& family_of(g[0].kind) == Some(Family::Hour)
            &&& family_of(g.last().kind) == Some(Family::Minute)
            &&& g.len() == 3 ==> is_verbatim(g[1].kind)
        },
        ms_at(s, pos) matches Some(g) ==> {
            &&& 2 <= g.len() <= 3
            &&& family_of(g[0].kind) == Some(Family::Minute)
            &&& family_of(g.last().kind) == Some(Family::Second)
            &&& g.len() == 3 ==> is_verbatim(g[1].kind)
        },
        hour_at(s, pos) matches Some(h) ==> (minute_at(s, h.end) is Some ==> hm_at(s, pos)
            is Some),
        minute_at(s, pos) matches Some(m) ==> (second_at(s, m.end) is Some ==> ms_at(s, pos)
            is Some),
{
    if let Some(h) = hour_at(s, pos) {
        lemma_literal_excludes_time(s, h.end);
    }
    if let Some(m) = minute_at(s, pos) {
        lemma_literal_excludes_time(s, m.end);
    }
}

} // verus!
