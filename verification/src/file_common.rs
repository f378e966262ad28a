//! Helpers for reading and writing XML text.

use crate::text::{from_chars, to_chars};
use crate::token::{match_tag, tag_at};
use quick_xml::events::{BytesEnd, BytesStart, BytesText, Event};
use quick_xml::Writer;
use std::io::Cursor;
use std::string::FromUtf8Error;
use vstd::prelude::*;
use vstd::string::StringSliceAdditionalSpecFns;
use vstd::utf8::{decode_utf8, valid_utf8};

verus! {

/// `s` from `pos` on, with every occurrence of `from` replaced by `to`.
/// The occurrences are found from left to right and do not overlap; the
/// replacement text is not searched again. `from` is not empty.
pub open spec fn replaced_from(s: Seq<char>, pos: int, from: Seq<char>, to: Seq<char>) -> Seq<char>
    decreases s.len() - pos,
{
    if pos < 0 || pos >= s.len() || from.len() == 0 {
        Seq::empty()
    } else if tag_at(s, pos, from) {
        to + replaced_from(s, pos + from.len(), from, to)
    } else {
        seq![s[pos]] + replaced_from(s, pos + 1, from, to)
    }
}

/// `s` with every occurrence of `from` replaced by `to`: see [`replaced_from`].
pub open spec fn replaced(s: Seq<char>, from: Seq<char>, to: Seq<char>) -> Seq<char> {
    replaced_from(s, 0, from, to)
}

/// `s` with the five predefined XML entities replaced by the characters
/// they stand for: first every `&amp;`, then in what that gave every
/// `&lt;`, then `&gt;`, `&quot;` and `&apos;`.
pub open spec fn references_converted(s: Seq<char>) -> Seq<char> {
    replaced(
        replaced(
            replaced(replaced(replaced(s, "&amp;"@, "&"@), "&lt;"@, "<"@), "&gt;"@, ">"@),
            "&quot;"@,
            "\""@,
        ),
        "&apos;"@,
        "'"@,
    )
}

fn replace(chars: &Vec<char>, from: &str, to: &str) -> (r: Vec<char>)
    requires
        from@.len() > 0,
    ensures
        r@ == replaced(chars@, from@, to@),
{
    let replacement = to_chars(to);
    let mut out: Vec<char> = Vec::new();
    let mut pos: usize = 0;
    while pos < chars.len()
        invariant
            pos <= chars@.len(),
            from@.len() > 0,
            replacement@ == to@,
            replaced(chars@, from@, to@) == out@ + replaced_from(chars@, pos as int, from@, to@),
        decreases chars@.len() - pos,
    {
        let ghost before = out@;
        match match_tag(chars.as_slice(), pos, from, false) {
            Some(end) => {
                let mut copy = replacement.clone();
                out.append(&mut copy);
                proof {
                    let rest = replaced_from(chars@, end as int, from@, to@);
                    assert(before + (to@ + rest) =~= (before + to@) + rest);
                }
                pos = end;
            },
            None => {
                out.push(chars[pos]);
                proof {
                    let rest = replaced_from(chars@, pos + 1, from@, to@);
                    assert(before + (seq![chars@[pos as int]] + rest) =~= before.push(
                        chars@[pos as int],
                    ) + rest);
                }
                pos = pos + 1;
            },
        }
    }
    assert(out@ + Seq::<char>::empty() =~= out@);
    out
}

/// Replaces the five predefined XML entities in `src` by the characters
/// they stand for.
pub fn condvert_character_reference(src: &str) -> (r: String)
    ensures
        r@ == references_converted(src@),
{
    proof {
        reveal_strlit("&amp;");
        reveal_strlit("&lt;");
        reveal_strlit("&gt;");
        reveal_strlit("&quot;");
        reveal_strlit("&apos;");
    }
    let chars = to_chars(src);
    let chars = replace(&chars, "&amp;", "&");
    let chars = replace(&chars, "&lt;", "<");
    let chars = replace(&chars, "&gt;", ">");
    let chars = replace(&chars, "&quot;", "\"");
    let chars = replace(&chars, "&apos;", "'");
    from_chars(&chars)
}

/// Why an attribute value could not be read as text.
#[derive(Clone, Copy, Debug, PartialEq, Eq, Structural)]
pub enum AttributeError {
    /// The bytes of the value are not UTF-8.
    InvalidUtf8,
}

/// The error of `String::from_utf8`.
#[verifier::external_type_specification]
#[verifier::external_body]
pub struct ExFromUtf8Error(FromUtf8Error);

/// Calls `String::from_utf8`, which turns a vector of bytes into the
/// string that they encode and fails if the bytes are not UTF-8.
#[verifier::external_body]
fn string_from_utf8(bytes: Vec<u8>) -> (r: Result<String, FromUtf8Error>)
    ensures
        r is Ok <==> valid_utf8(bytes@),
        r matches Ok(s) ==> s@ == decode_utf8(bytes@),
{
    String::from_utf8(bytes)
}

/// The text of an attribute, given the raw bytes of its value.
pub fn get_attribute_value(value: &[u8]) -> (r: Result<String, AttributeError>)
    ensures
        match r {
            Ok(s) => valid_utf8(value@) && s@ == decode_utf8(value@),
            Err(e) => !valid_utf8(value@) && e == AttributeError::InvalidUtf8,
        },
{
    match string_from_utf8(vstd::slice::slice_to_vec(value)) {
        Ok(s) => Ok(s),
        Err(_) => Err(AttributeError::InvalidUtf8),
    }
}

/// An XML writer over a buffer in memory. It holds a `quick_xml::Writer`
/// over a cursor, made without indentation, whose cursor stands at the
/// end of the buffer: what is written is added to the end.
#[verifier::external_body]
pub struct XmlWriter {
    inner: Writer<Cursor<Vec<u8>>>,
}

/// The start tag of quick-xml: a name and the attributes pushed behind it.
#[verifier::external_type_specification]
#[verifier::external_body]
pub struct ExBytesStart<'a>(BytesStart<'a>);

/// The bytes held by the buffer that a writer writes to.
pub uninterp spec fn written(writer: XmlWriter) -> Seq<u8>;

/// The bytes of a start tag: its name and attributes as they will stand
/// between the angle brackets.
pub uninterp spec fn tag_content(tag: BytesStart<'static>) -> Seq<u8>;

/// What stands for one byte in escaped XML text: an entity for each of
/// `<`, `>`, `&`, `'` and `"`, else the byte itself.
pub open spec fn escaped_byte(b: u8) -> Seq<u8> {
    if b == 0x3c {
        "&lt;".spec_bytes()
    } else if b == 0x3e {
        "&gt;".spec_bytes()
    } else if b == 0x27 {
        "&apos;".spec_bytes()
    } else if b == 0x26 {
        "&amp;".spec_bytes()
    } else if b == 0x22 {
        "&quot;".spec_bytes()
    } else {
        seq![b]
    }
}

/// Plain text as escaped XML text: byte by byte, see [`escaped_byte`].
pub open spec fn escaped(bytes: Seq<u8>) -> Seq<u8>
    decreases bytes.len(),
{
    if bytes.len() == 0 {
        Seq::empty()
    } else {
        escaped(bytes.drop_last()) + escaped_byte(bytes.last())
    }
}

/// One attribute as it stands in a start tag: a space, the key as it is,
/// and the escaped value between double quotes.
pub open spec fn attribute_bytes(key: Seq<u8>, value: Seq<u8>) -> Seq<u8> {
    seq![0x20u8] + key + seq![0x3du8, 0x22u8] + escaped(value) + seq![0x22u8]
}

/// The attributes of a list as they stand in a start tag, in order.
pub open spec fn attributes_bytes(attributes: Seq<(&str, &str)>) -> Seq<u8>
    decreases attributes.len(),
{
    if attributes.len() == 0 {
        Seq::empty()
    } else {
        attributes_bytes(attributes.drop_last()) + attribute_bytes(
            attributes.last().0.spec_bytes(),
            attributes.last().1.spec_bytes(),
        )
    }
}

/// A start tag, or an empty-element tag if `empty` is set.
pub open spec fn start_tag_bytes(name: Seq<u8>, attributes: Seq<(&str, &str)>, empty: bool) -> Seq<
    u8,
> {
    seq![0x3cu8] + name + attributes_bytes(attributes) + if empty {
        seq![0x2fu8, 0x3eu8]
    } else {
        seq![0x3eu8]
    }
}

/// An end tag.
pub open spec fn end_tag_bytes(name: Seq<u8>) -> Seq<u8> {
    seq![0x3cu8, 0x2fu8] + name + seq![0x3eu8]
}

/// Calls `Writer::new` on a cursor over an empty vector.
#[verifier::external_body]
fn make_writer() -> (r: XmlWriter)
    ensures
        written(r) == Seq::<u8>::empty(),
{
    XmlWriter { inner: Writer::new(Cursor::new(Vec::new())) }
}

/// Calls `Writer::into_inner` and `Cursor::into_inner`, which hand out
/// the buffer.
#[verifier::external_body]
fn take_buffer(writer: XmlWriter) -> (r: Vec<u8>)
    ensures
        r@ == written(writer),
{
    writer.inner.into_inner().into_inner()
}

/// Calls `BytesStart::owned` with the bytes of `name` as the content and
/// their number as the length of the name.
#[verifier::external_body]
fn make_tag(name: &str) -> (r: BytesStart<'static>)
    ensures
        tag_content(r) == name.spec_bytes(),
{
    BytesStart::owned(name.as_bytes().to_vec(), name.len())
}

/// Calls `BytesStart::push_attribute` with a pair of strings. quick-xml
/// keeps the key as it is and escapes the value, and appends a space, the
/// key, `="`, the value and `"` to the content of the tag.
#[verifier::external_body]
fn push_attribute(tag: &mut BytesStart<'static>, key: &str, value: &str)
    ensures
        tag_content(*final(tag)) == tag_content(*old(tag)) + attribute_bytes(
            key.spec_bytes(),
            value.spec_bytes(),
        ),
{
    tag.push_attribute((key, value));
}

/// Calls `Writer::write_event` with `Event::Start`. The writer adds `<`,
/// the content of the tag and `>`.
#[verifier::external_body]
fn write_start(writer: &mut XmlWriter, tag: BytesStart<'static>)
    ensures
        written(*final(writer)) == written(*old(writer)) + seq![0x3cu8] + tag_content(tag)
            + seq![0x3eu8],
{
    let _ = writer.inner.write_event(Event::Start(tag));
}

/// Calls `Writer::write_event` with `Event::Empty`. The writer adds `<`,
/// the content of the tag and `/>`.
#[verifier::external_body]
fn write_empty(writer: &mut XmlWriter, tag: BytesStart<'static>)
    ensures
        written(*final(writer)) == written(*old(writer)) + seq![0x3cu8] + tag_content(tag)
            + seq![0x2fu8, 0x3eu8],
{
    let _ = writer.inner.write_event(Event::Empty(tag));
}

/// Calls `Writer::write_event` with `Event::End` of `BytesEnd::borrowed`.
/// The writer adds `</`, the name and `>`.
#[verifier::external_body]
fn write_end(writer: &mut XmlWriter, name: &str)
    ensures
        written(*final(writer)) == written(*old(writer)) + end_tag_bytes(name.spec_bytes()),
{
    let _ = writer.inner.write_event(Event::End(BytesEnd::borrowed(name.as_bytes())));
}

/// Calls `Writer::write_event` with `Event::Text` of
/// `BytesText::from_plain_str`, which escapes the text. The writer adds
/// the escaped text.
#[verifier::external_body]
fn write_text(writer: &mut XmlWriter, data: &str)
    ensures
        written(*final(writer)) == written(*old(writer)) + escaped(data.spec_bytes()),
{
    let _ = writer.inner.write_event(Event::Text(BytesText::from_plain_str(data)));
}

impl XmlWriter {
    /// A writer over an empty buffer.
    pub fn new() -> (r: XmlWriter)
        ensures
            written(r) == Seq::<u8>::empty(),
    {
        make_writer()
    }

    /// The bytes that were written.
    pub fn into_bytes(self) -> (r: Vec<u8>)
        ensures
            r@ == written(self),
    {
        take_buffer(self)
    }
}

/// Writes a start tag with the given name and attributes, or an
/// empty-element tag if `empty_flag` is set. The values of the attributes
/// are escaped.
pub fn write_start_tag(
    writer: &mut XmlWriter,
    tag_name: &str,
    attributes: Vec<(&str, &str)>,
    empty_flag: bool,
)
    ensures
        written(*final(writer)) == written(*old(writer)) + start_tag_bytes(
            tag_name.spec_bytes(),
            attributes@,
            empty_flag,
        ),
{
    let mut elem = make_tag(tag_name);
    for i in 0..attributes.len()
        invariant
            tag_content(elem) == tag_name.spec_bytes() + attributes_bytes(
                attributes@.take(i as int),
            ),
    {
        let attribute = attributes[i];
        proof {
            let upto = attributes@.take(i + 1);
            assert(upto.drop_last() =~= attributes@.take(i as int));
            assert(upto.last() == attributes@[i as int]);
        }
        push_attribute(&mut elem, attribute.0, attribute.1);
        assert(tag_content(elem) =~= tag_name.spec_bytes() + attributes_bytes(
            attributes@.take(i + 1),
        ));
    }
    assert(attributes@.take(attributes@.len() as int) =~= attributes@);
    if empty_flag {
        write_empty(writer, elem);
    } else {
        write_start(writer, elem);
    }
    assert(written(*writer) =~= written(*old(writer)) + start_tag_bytes(
        tag_name.spec_bytes(),
        attributes@,
        empty_flag,
    ));
}

/// Writes an end tag with the given name.
pub fn write_end_tag(writer: &mut XmlWriter, tag_name: &str)
    ensures
        written(*final(writer)) == written(*old(writer)) + end_tag_bytes(tag_name.spec_bytes()),
{
    write_end(writer, tag_name);
}

/// Writes a text node: `data`, escaped.
pub fn write_text_node(writer: &mut XmlWriter, data: &str)
    ensures
        written(*final(writer)) == written(*old(writer)) + escaped(data.spec_bytes()),
{
    write_text(writer, data);
}

} // verus!
