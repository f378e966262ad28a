use cell_format::file_common::{
    condvert_character_reference, get_attribute_value, write_end_tag, write_start_tag,
    write_text_node, AttributeError, XmlWriter,
};

#[test]
fn each_entity_is_replaced() {
    assert_eq!(condvert_character_reference("&amp;"), "&");
    assert_eq!(condvert_character_reference("&lt;"), "<");
    assert_eq!(condvert_character_reference("&gt;"), ">");
    assert_eq!(condvert_character_reference("&quot;"), "\"");
    assert_eq!(condvert_character_reference("&apos;"), "'");
}

#[test]
fn entities_are_replaced_wherever_they_stand() {
    assert_eq!(
        condvert_character_reference("a &lt; b &amp;&amp; c &gt; d"),
        "a < b && c > d"
    );
    assert_eq!(condvert_character_reference("&quot;年&apos;"), "\"年'");
    assert_eq!(condvert_character_reference("plain"), "plain");
    assert_eq!(condvert_character_reference(""), "");
}

#[test]
fn ampersand_is_replaced_first() {
    assert_eq!(condvert_character_reference("&amp;lt;"), "<");
    assert_eq!(condvert_character_reference("&amp;amp;"), "&amp;");
    assert_eq!(condvert_character_reference("&amp;quot;"), "\"");
}

#[test]
fn other_references_are_left_alone() {
    assert_eq!(condvert_character_reference("&nbsp;&#65;&LT;&lt"), "&nbsp;&#65;&LT;&lt");
    assert_eq!(condvert_character_reference("&am&amp;p;"), "&am&p;");
}

#[test]
fn conversion_agrees_with_the_standard_replace() {
    let cases = ["&amp;lt;&gt;&&apos;", "&&&amp;;;", "&lt;&lt;&lt", "x&quot;&amp;apos;y", "&apos"];
    for case in cases {
        let expected = case
            .replace("&amp;", "&")
            .replace("&lt;", "<")
            .replace("&gt;", ">")
            .replace("&quot;", "\"")
            .replace("&apos;", "'");
        assert_eq!(condvert_character_reference(case), expected);
    }
}

#[test]
fn attribute_value_is_decoded() {
    assert_eq!(get_attribute_value(b"abc"), Ok(String::from("abc")));
    assert_eq!(get_attribute_value("令和".as_bytes()), Ok(String::from("令和")));
    assert_eq!(get_attribute_value(b""), Ok(String::new()));
    assert_eq!(get_attribute_value(b"a &amp; b"), Ok(String::from("a &amp; b")));
}

#[test]
fn attribute_value_must_be_utf8() {
    assert_eq!(get_attribute_value(&[0xff]), Err(AttributeError::InvalidUtf8));
    assert_eq!(get_attribute_value(&[0x61, 0xe4, 0xbb]), Err(AttributeError::InvalidUtf8));
    assert_eq!(get_attribute_value(&[0xed, 0xa0, 0x80]), Err(AttributeError::InvalidUtf8));
    assert_eq!(get_attribute_value(&[0xc0, 0x80]), Err(AttributeError::InvalidUtf8));
}

#[test]
fn new_writer_is_empty() {
    assert_eq!(XmlWriter::new().into_bytes(), Vec::<u8>::new());
}

#[test]
fn start_tag_with_attributes() {
    let mut writer = XmlWriter::new();
    write_start_tag(&mut writer, "sheet", vec![("name", "Sheet1"), ("id", "1")], false);
    assert_eq!(writer.into_bytes(), b"<sheet name=\"Sheet1\" id=\"1\">".to_vec());
}

#[test]
fn start_tag_without_attributes() {
    let mut writer = XmlWriter::new();
    write_start_tag(&mut writer, "row", vec![], false);
    assert_eq!(writer.into_bytes(), b"<row>".to_vec());
}

#[test]
fn empty_element_tag() {
    let mut writer = XmlWriter::new();
    write_start_tag(&mut writer, "c", vec![("r", "A1")], true);
    write_start_tag(&mut writer, "d", vec![], true);
    assert_eq!(writer.into_bytes(), b"<c r=\"A1\"/><d/>".to_vec());
}

#[test]
fn attribute_values_are_escaped() {
    let mut writer = XmlWriter::new();
    write_start_tag(&mut writer, "f", vec![("v", "a<b>c&d'e\"f"), ("k&", "年")], false);
    assert_eq!(
        writer.into_bytes(),
        "<f v=\"a&lt;b&gt;c&amp;d&apos;e&quot;f\" k&=\"年\">".as_bytes().to_vec()
    );
}

#[test]
fn end_tag() {
    let mut writer = XmlWriter::new();
    write_end_tag(&mut writer, "sheet");
    assert_eq!(writer.into_bytes(), b"</sheet>".to_vec());
}

#[test]
fn text_node_is_escaped() {
    let mut writer = XmlWriter::new();
    write_text_node(&mut writer, "1 < 2 & \"3\" > '2' 年");
    assert_eq!(
        writer.into_bytes(),
        "1 &lt; 2 &amp; &quot;3&quot; &gt; &apos;2&apos; 年".as_bytes().to_vec()
    );
}

#[test]
fn events_are_written_one_behind_the_other() {
    let mut writer = XmlWriter::new();
    write_start_tag(&mut writer, "a", vec![("k", "v")], false);
    write_text_node(&mut writer, "x&y");
    write_start_tag(&mut writer, "b", vec![], true);
    write_end_tag(&mut writer, "a");
    assert_eq!(writer.into_bytes(), b"<a k=\"v\">x&amp;y<b/></a>".to_vec());
}

#[test]
fn escaped_text_converts_back() {
    let mut writer = XmlWriter::new();
    write_text_node(&mut writer, "a<b>&\"c\"'d'");
    let written = String::from_utf8(writer.into_bytes()).unwrap();
    assert_eq!(condvert_character_reference(&written), "a<b>&\"c\"'d'");
}
