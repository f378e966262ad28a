//! The numeric grammar: a format code read as one to four sections.
//!
//! A section is an optional colour marker, any number of literal or currency
//! tokens, a numeric mask, and again any number of literal or currency
//! tokens. Sections are separated by semicolons.

use crate::token::{
    advances, color, color_at, contiguous, currency_jp, currency_jp_at, end_of,
    lemma_contiguous_concat, lemma_contiguous_one, lemma_markers_advance, lemma_tokens_advance,
    lexemes, number, number_at, opt_lexeme, opt_lexemes, or_else, word, word_at, Lexeme, Token,
    TokenKind,
};
use vstd::prelude::*;

verus! {

/// The most sections that a numeric format code can hold.
pub const MAX_SECTIONS: usize = 4;

/// A token that may stand on either side of the mask: literal text, else
/// the currency marker.
pub open spec fn filler_at(s: Seq<char>, pos: int) -> Option<Lexeme> {
    or_else(word_at(s, pos), currency_jp_at(s, pos))
}

/// A filler token consumes at least one character.
pub proof fn lemma_filler_advances(s: Seq<char>, pos: int)
    ensures
        advances(s, pos, filler_at(s, pos)),
{
    lemma_tokens_advance(s, pos);
    lemma_markers_advance(s, pos);
}

/// All the filler tokens that follow each other from `pos` on.
pub open spec fn fillers_from(s: Seq<char>, pos: int) -> Seq<Lexeme>
    decreases s.len() - pos,
    via fillers_from_decreases
{
    match filler_at(s, pos) {
        Some(t) => seq![t] + fillers_from(s, t.end),
        None => Seq::empty(),
    }
}

#[via_fn]
proof fn fillers_from_decreases(s: Seq<char>, pos: int) {
    lemma_filler_advances(s, pos);
}

/// The colour marker at `pos` as a list of no or one token.
pub open spec fn color_part(s: Seq<char>, pos: int) -> Seq<Lexeme> {
    match color_at(s, pos) {
        Some(c) => seq![c],
        None => Seq::empty(),
    }
}

/// The numeric section at `pos`: its tokens in source order. `None` if no
/// mask stands behind the leading colour and filler tokens.
pub open spec fn section_at(s: Seq<char>, pos: int) -> Option<Seq<Lexeme>> {
    let color = color_part(s, pos);
    let lead = fillers_from(s, end_of(pos, color));
    match number_at(s, end_of(end_of(pos, color), lead)) {
        Some(mask) => Some(color + lead + seq![mask] + fillers_from(s, mask.end)),
        None => None,
    }
}

/// At most `limit` sections from `pos` up to the end of the text, each but
/// the last followed by a semicolon.
pub open spec fn sections_from(s: Seq<char>, pos: int, limit: nat) -> Option<Seq<Seq<Lexeme>>>
    decreases limit,
{
    if limit == 0 {
        None
    } else {
        match section_at(s, pos) {
            Some(section) => {
                let end = section.last().end;
                if end == s.len() {
                    Some(seq![section])
                } else if 0 <= end < s.len() && s[end] == ';' {
                    match sections_from(s, end + 1, (limit - 1) as nat) {
                        Some(rest) => Some(seq![section] + rest),
                        None => None,
                    }
                } else {
                    None
                }
            },
            None => None,
        }
    }
}

/// The sections of a numeric format code, if it is one.
pub open spec fn numeric_sections(s: Seq<char>) -> Option<Seq<Seq<Lexeme>>> {
    sections_from(s, 0, MAX_SECTIONS as nat)
}

/// The views of a list of sections.
pub open spec fn sections_view(sections: Seq<Vec<Token>>) -> Seq<Seq<Lexeme>> {
    sections.map_values(|section: Vec<Token>| lexemes(section@))
}

/// The views of an optional list of sections.
pub open spec fn opt_sections(sections: Option<Vec<Vec<Token>>>) -> Option<Seq<Seq<Lexeme>>> {
    match sections {
        Some(v) => Some(sections_view(v@)),
        None => None,
    }
}

/// The filler tokens read from `pos` on end between `pos` and the end of the text.
pub proof fn lemma_fillers_end(s: Seq<char>, pos: int)
    requires
        0 <= pos <= s.len(),
    ensures
        pos <= end_of(pos, fillers_from(s, pos)) <= s.len(),
    decreases s.len() - pos,
{
    lemma_filler_advances(s, pos);
    if let Some(t) = filler_at(s, pos) {
        lemma_fillers_end(s, t.end);
    }
}

/// A section holds its mask, so it is not empty, and it ends behind `pos`
/// and inside the text.
pub proof fn lemma_section_end(s: Seq<char>, pos: int)
    requires
        0 <= pos <= s.len(),
    ensures
        section_at(s, pos) matches Some(section) ==> section.len() >= 1 && pos
            < section.last().end <= s.len(),
{
    lemma_markers_advance(s, pos);
    let color = color_part(s, pos);
    let lead_from = end_of(pos, color);
    lemma_fillers_end(s, lead_from);
    let lead = fillers_from(s, lead_from);
    let mask_from = end_of(lead_from, lead);
    lemma_tokens_advance(s, mask_from);
    if let Some(mask) = number_at(s, mask_from) {
        lemma_fillers_end(s, mask.end);
    }
}

/// Recognises a filler token at `pos`.
pub fn filler(chars: &[char], pos: usize) -> (r: Option<Token>)
    ensures
        opt_lexeme(r) == filler_at(chars@, pos as int),
{
    let r = word(chars, pos);
    if r.is_some() {
        return r;
    }
    currency_jp(chars, pos)
}

/// Appends to `out` the filler tokens that follow each other from `pos` on
/// and returns the position behind them.
fn fillers(chars: &[char], pos: usize, out: &mut Vec<Token>) -> (end: usize)
    requires
        pos <= chars@.len(),
    ensures
        lexemes(final(out)@) == lexemes(old(out)@) + fillers_from(chars@, pos as int),
        end == end_of(pos as int, fillers_from(chars@, pos as int)),
        pos <= end <= chars@.len(),
{
    let ghost mut read: Seq<Lexeme> = Seq::empty();
    let mut at: usize = pos;
    assert(lexemes(out@) + read =~= lexemes(out@));
    loop
        invariant
            pos <= at <= chars@.len(),
            lexemes(out@) == lexemes(old(out)@) + read,
            fillers_from(chars@, pos as int) == read + fillers_from(chars@, at as int),
            at == end_of(pos as int, read),
        decreases chars@.len() - at,
    {
        proof {
            lemma_filler_advances(chars@, at as int);
        }
        match filler(chars, at) {
            Some(t) => {
                let ghost before = out@;
                out.push(t);
                at = t.end;
                proof {
                    let rest = fillers_from(chars@, t@.end);
                    assert(read + (seq![t@] + rest) =~= read.push(t@) + rest);
                    assert(lexemes(before.push(t)) =~= lexemes(before).push(t@));
                    assert((lexemes(old(out)@) + read).push(t@) =~= lexemes(old(out)@) + read.push(
                        t@,
                    ));
                    read = read.push(t@);
                }
            },
            None => {
                assert(read + Seq::<Lexeme>::empty() =~= read);
                return at;
            },
        }
    }
}

/// Recognises the numeric section at `pos`.
pub fn numeric(chars: &[char], pos: usize) -> (r: Option<Vec<Token>>)
    ensures
        opt_lexemes(r) == section_at(chars@, pos as int),
{
    if pos > chars.len() {
        proof {
            lemma_markers_advance(chars@, pos as int);
            lemma_filler_advances(chars@, pos as int);
            lemma_tokens_advance(chars@, pos as int);
        }
        return None;
    }
    let mut section: Vec<Token> = Vec::new();
    let mut at: usize = pos;
    proof {
        lemma_markers_advance(chars@, pos as int);
    }
    match color(chars, pos) {
        Some(c) => {
            section.push(c);
            at = c.end;
        },
        None => {},
    }
    assert(lexemes(section@) =~= color_part(chars@, pos as int));
    let ghost colored = lexemes(section@);
    let mask_at = fillers(chars, at, &mut section);
    let ghost lead = fillers_from(chars@, at as int);
    match number(chars, mask_at) {
        Some(mask) => {
            proof {
                lemma_tokens_advance(chars@, mask_at as int);
                assert(lexemes(section@.push(mask)) =~= colored + lead + seq![mask@]);
            }
            section.push(mask);
            fillers(chars, mask.end, &mut section);
            Some(section)
        },
        None => None,
    }
}

/// One step of [`sections_from`]: behind a section that ends in a
/// semicolon the reading goes on with one section fewer to come.
proof fn lemma_sections_step(
    s: Seq<char>,
    pos: int,
    limit: nat,
    before: Seq<Seq<Lexeme>>,
    section: Seq<Lexeme>,
)
    requires
        limit > 0,
        section_at(s, pos) == Some(section),
        0 <= section.last().end < s.len(),
        s[section.last().end] == ';',
    ensures
        (match sections_from(s, pos, limit) {
            Some(rest) => Some(before + rest),
            None => None,
        }) == (match sections_from(s, section.last().end + 1, (limit - 1) as nat) {
            Some(rest) => Some(before.push(section) + rest),
            None => None,
        }),
{
    if let Some(rest) = sections_from(s, section.last().end + 1, (limit - 1) as nat) {
        assert(before + (seq![section] + rest) =~= before.push(section) + rest);
    }
}

/// Reads the whole of `chars` as a numeric format. Returns its sections,
/// one to four of them, or `None` if the text is not made of such sections.
pub fn numeric_ary(chars: &[char]) -> (r: Option<Vec<Vec<Token>>>)
    ensures
        opt_sections(r) == numeric_sections(chars@),
{
    let mut sections: Vec<Vec<Token>> = Vec::new();
    let mut pos: usize = 0;
    assert(sections_view(sections@) =~= Seq::<Seq<Lexeme>>::empty());
    while sections.len() < MAX_SECTIONS
        invariant
            pos <= chars@.len(),
            sections@.len() <= MAX_SECTIONS,
            numeric_sections(chars@) == match sections_from(
                chars@,
                pos as int,
                (MAX_SECTIONS - sections@.len()) as nat,
            ) {
                Some(rest) => Some(sections_view(sections@) + rest),
                None => None,
            },
        decreases MAX_SECTIONS - sections@.len(),
    {
        let section = match numeric(chars, pos) {
            Some(section) => section,
            None => {
                return None;
            },
        };
        proof {
            lemma_section_end(chars@, pos as int);
        }
        let end = section[section.len() - 1].end;
        let ghost before = sections_view(sections@);
        let ghost limit = (MAX_SECTIONS - sections@.len()) as nat;
        proof {
            assert(sections_view(sections@.push(section)) =~= before.push(lexemes(section@)));
            assert(before + seq![lexemes(section@)] =~= before.push(lexemes(section@)));
        }
        if end == chars.len() {
            sections.push(section);
            return Some(sections);
        }
        if chars[end] != ';' {
            return None;
        }
        proof {
            lemma_sections_step(chars@, pos as int, limit, before, lexemes(section@));
        }
        sections.push(section);
        pos = end + 1;
    }
    None
}

/// The filler tokens read from `pos` on follow each other without a gap.
pub proof fn lemma_fillers_contiguous(s: Seq<char>, pos: int)
    requires
        0 <= pos <= s.len(),
    ensures
        contiguous(s, pos, fillers_from(s, pos)),
    decreases s.len() - pos,
{
    lemma_filler_advances(s, pos);
    if let Some(t) = filler_at(s, pos) {
        lemma_fillers_contiguous(s, t.end);
        lemma_contiguous_one(s, pos, t);
        lemma_contiguous_concat(s, pos, seq![t], fillers_from(s, t.end));
    }
}

/// The tokens of a section follow each other without a gap from `pos` on.
pub proof fn lemma_section_contiguous(s: Seq<char>, pos: int)
    requires
        0 <= pos <= s.len(),
    ensures
        section_at(s, pos) matches Some(section) ==> contiguous(s, pos, section),
{
    lemma_markers_advance(s, pos);
    let color = color_part(s, pos);
    if let Some(c) = color_at(s, pos) {
        lemma_contiguous_one(s, pos, c);
    }
    let lead_from = end_of(pos, color);
    lemma_fillers_end(s, lead_from);
    lemma_fillers_contiguous(s, lead_from);
    let lead = fillers_from(s, lead_from);
    lemma_contiguous_concat(s, pos, color, lead);
    let mask_from = end_of(lead_from, lead);
    lemma_tokens_advance(s, mask_from);
    if let Some(mask) = number_at(s, mask_from) {
        lemma_contiguous_one(s, mask_from, mask);
        lemma_contiguous_concat(s, pos, color + lead, seq![mask]);
        lemma_fillers_contiguous(s, mask.end);
        lemma_contiguous_concat(s, pos, color + lead + seq![mask], fillers_from(s, mask.end));
    }
}

/// A numeric format holds at least one section and at most `limit`, and
/// each section is a contiguous list of at least one token.
pub proof fn lemma_sections_well_formed(s: Seq<char>, pos: int, limit: nat)
    requires
        0 <= pos <= s.len(),
    ensures
        sections_from(s, pos, limit) matches Some(sections) ==> {
            &&& 1 <= sections.len() <= limit
            &&& forall|i: int|
                0 <= i < sections.len() ==> (#[trigger] sections[i]).len() >= 1 && contiguous(
                    s,
                    sections[i][0].start,
                    sections[i],
                )
        },
    decreases limit,
{
    if limit > 0 {
        lemma_section_end(s, pos);
        lemma_section_contiguous(s, pos);
        if let Some(section) = section_at(s, pos) {
            let end = section.last().end;
            if end < s.len() && s[end] == ';' {
                lemma_sections_well_formed(s, end + 1, (limit - 1) as nat);
                if let Some(rest) = sections_from(s, end + 1, (limit - 1) as nat) {
                    let sections = seq![section] + rest;
                    assert forall|i: int| 0 <= i < sections.len() implies (
                    #[trigger] sections[i]).len() >= 1 && contiguous(
                        s,
                        sections[i][0].start,
                        sections[i],
                    ) by {
                        if i > 0 {
                            assert(sections[i] == rest[i - 1]);
                        }
                    }
                }
            }
        }
    }
}

/// Section count. A numeric format holds at least one section and at
/// most four.
pub proof fn lemma_section_count(s: Seq<char>)
    ensures
        numeric_sections(s) matches Some(sections) ==> 1 <= sections.len() <= MAX_SECTIONS,
{
    lemma_sections_well_formed(s, 0, MAX_SECTIONS as nat);
}

/// The sections tile the text from `pos` on: each is a contiguous list
/// of tokens, a semicolon stands between one section and the next, and
/// the last section ends where the text ends.
pub open spec fn sections_tile(s: Seq<char>, pos: int, sections: Seq<Seq<Lexeme>>) -> bool
    decreases sections.len(),
{
    if sections.len() == 0 {
        false
    } else {
        let first = sections[0];
        &&& first.len() >= 1
        &&& contiguous(s, pos, first)
        &&& if sections.len() == 1 {
            first.last().end == s.len()
        } else {
            &&& 0 <= first.last().end < s.len()
            &&& s[first.last().end] == ';'
            &&& sections_tile(s, first.last().end + 1, sections.drop_first())
        }
    }
}

/// Section boundaries. The sections of a numeric format tile its text:
/// see [`sections_tile`].
pub proof fn lemma_sections_tile(s: Seq<char>, pos: int, limit: nat)
    requires
        0 <= pos <= s.len(),
    ensures
        sections_from(s, pos, limit) matches Some(sections) ==> sections_tile(s, pos, sections),
    decreases limit,
{
    if limit > 0 {
        lemma_section_end(s, pos);
        lemma_section_contiguous(s, pos);
        if let Some(section) = section_at(s, pos) {
            let end = section.last().end;
            if end == s.len() {
                assert(sections_tile(s, pos, seq![section]));
            } else if s[end] == ';' {
                lemma_sections_tile(s, end + 1, (limit - 1) as nat);
                lemma_sections_well_formed(s, end + 1, (limit - 1) as nat);
                if let Some(rest) = sections_from(s, end + 1, (limit - 1) as nat) {
                    let sections = seq![section] + rest;
                    assert(sections.drop_first() =~= rest);
                    assert(sections[0] == section);
                }
            }
        }
    }
}

/// Exactly one token of the list is a numeric mask.
pub open spec fn has_one_mask(section: Seq<Lexeme>) -> bool {
    exists|i: int|
        {
            &&& 0 <= i < section.len()
            &&& (#[trigger] section[i]).kind == TokenKind::Number
            &&& forall|j: int|
                0 <= j < section.len() && j != i ==> (#[trigger] section[j]).kind
                    != TokenKind::Number
        }
}

/// No filler token is a numeric mask.
pub proof fn lemma_fillers_hold_no_mask(s: Seq<char>, pos: int)
    ensures
        forall|i: int|
            0 <= i < fillers_from(s, pos).len() ==> (#[trigger] fillers_from(s, pos)[i]).kind
                != TokenKind::Number,
    decreases s.len() - pos,
{
    lemma_filler_advances(s, pos);
    if let Some(t) = filler_at(s, pos) {
        lemma_fillers_hold_no_mask(s, t.end);
        let rest = fillers_from(s, t.end);
        let all = fillers_from(s, pos);
        assert forall|i: int| 0 <= i < all.len() implies (#[trigger] all[i]).kind
            != TokenKind::Number by {
            if i > 0 {
                assert(all[i] == rest[i - 1]);
            }
        }
    }
}

/// The mask of a section. A section holds exactly one numeric mask: it
/// stands behind the colour marker and the leading filler tokens, it is
/// the mask that the grammar reports at its place, and no other token of
/// the section is a mask.
pub proof fn lemma_section_has_one_mask(s: Seq<char>, pos: int)
    ensures
        section_at(s, pos) matches Some(section) ==> {
            let at = color_part(s, pos).len() + fillers_from(
                s,
                end_of(pos, color_part(s, pos)),
            ).len();
            &&& 0 <= at < section.len()
            &&& section[at as int].kind == TokenKind::Number
            &&& number_at(s, section[at as int].start) == Some(section[at as int])
            &&& forall|j: int|
                0 <= j < section.len() && j != at ==> (#[trigger] section[j]).kind
                    != TokenKind::Number
            &&& has_one_mask(section)
        },
{
    if let Some(section) = section_at(s, pos) {
        let color = color_part(s, pos);
        let lead_from = end_of(pos, color);
        let lead = fillers_from(s, lead_from);
        let mask_from = end_of(lead_from, lead);
        let mask = number_at(s, mask_from).unwrap();
        let trail = fillers_from(s, mask.end);
        let at = (color.len() + lead.len()) as int;
        lemma_fillers_hold_no_mask(s, lead_from);
        lemma_fillers_hold_no_mask(s, mask.end);
        assert(section =~= color + lead + seq![mask] + trail);
        assert(section[at] == mask);
        assert forall|j: int| 0 <= j < section.len() && j != at implies (#[trigger] section[j]).kind
            != TokenKind::Number by {
            if j < color.len() {
                assert(section[j] == color[j]);
            } else if j < at {
                assert(section[j] == lead[j - color.len()]);
            } else {
                assert(section[j] == trail[j - at - 1]);
            }
        }
    }
}

/// Every section of a numeric format holds exactly one numeric mask.
pub proof fn lemma_sections_have_one_mask(s: Seq<char>, pos: int, limit: nat)
    ensures
        sections_from(s, pos, limit) matches Some(sections) ==> forall|i: int|
            0 <= i < sections.len() ==> has_one_mask(#[trigger] sections[i]),
    decreases limit,
{
    if limit > 0 {
        lemma_section_has_one_mask(s, pos);
        if let Some(section) = section_at(s, pos) {
            let end = section.last().end;
            if end != s.len() && 0 <= end < s.len() && s[end] == ';' {
                lemma_sections_have_one_mask(s, end + 1, (limit - 1) as nat);
                if let Some(rest) = sections_from(s, end + 1, (limit - 1) as nat) {
                    let sections = seq![section] + rest;
                    assert forall|i: int| 0 <= i < sections.len() implies has_one_mask(
                        #[trigger] sections[i],
                    ) by {
                        if i > 0 {
                            assert(sections[i] == rest[i - 1]);
                        }
                    }
                }
            }
        }
    }
}

/// The one mask of each section. Every section of a numeric format holds
/// exactly one numeric mask: see [`lemma_section_has_one_mask`].
pub proof fn lemma_each_section_has_one_mask(s: Seq<char>)
    ensures
        numeric_sections(s) matches Some(sections) ==> forall|i: int|
            0 <= i < sections.len() ==> has_one_mask(#[trigger] sections[i]),
{
    lemma_sections_have_one_mask(s, 0, MAX_SECTIONS as nat);
}

} // verus!
