use codex_workflow::properties::{decode_js_string, find_string_property, string_property_value};
use codex_workflow::scan::{find_object_end, skip_block_comment, skip_line_comment, skip_string};

fn bytes(text: &str) -> &[u8] {
    text.as_bytes()
}

#[test]
fn strings_end_at_their_own_unescaped_quote() {
    let text = bytes(r#"'it\'s "x"' rest"#);
    assert_eq!(skip_string(text, 0), Ok(10));
    assert_eq!(
        skip_string(bytes("\"open"), 0),
        Err("unterminated string in workflow metadata".to_string())
    );
    assert_eq!(
        skip_string(bytes("'ends with escape\\'"), 0),
        Err("unterminated string in workflow metadata".to_string())
    );
}

#[test]
fn comments_end_at_line_feed_or_closing_star_slash() {
    let text = bytes("// note\nnext");
    assert_eq!(skip_line_comment(text, 0), 7);
    assert_eq!(skip_line_comment(bytes("// last"), 0), 7);
    assert_eq!(skip_block_comment(bytes("/* a */b"), 0), Ok(6));
    assert_eq!(skip_block_comment(bytes("/**/"), 0), Ok(3));
    assert_eq!(
        skip_block_comment(bytes("/* open"), 0),
        Err("unterminated comment in workflow metadata".to_string())
    );
}

#[test]
fn object_end_skips_nested_objects_strings_and_comments() {
    let text = "{ a: { b: '}' }, /* } */ c: \"}\" // }\n } tail";
    assert_eq!(find_object_end(text), Ok(text.find('t').unwrap() - 2));
    assert_eq!(
        find_object_end("x {}"),
        Err("workflow metadata must be an object literal".to_string())
    );
    assert_eq!(
        find_object_end("{ a: {"),
        Err("unterminated workflow metadata object".to_string())
    );
}

#[test]
fn properties_are_read_at_the_top_level_only() {
    let meta = ("{ inner: { name: 'nested' }, 'name': \"top\", description: 'd' }");
    assert_eq!(find_string_property(meta, "name"), Ok(Some("top".to_string())));
    assert_eq!(find_string_property(meta, "description"), Ok(Some("d".to_string())));
    assert_eq!(find_string_property(meta, "missing"), Ok(None));
    let numeric = ("{ name: 7, name: 'later' }");
    assert_eq!(find_string_property(numeric, "name"), Ok(Some("later".to_string())));
}

#[test]
fn property_values_must_be_quoted_strings() {
    let text = "name :  'value' ";
    assert_eq!(string_property_value(text, 4), Ok(Some("value".to_string())));
    assert_eq!(string_property_value(" = 'x'", 0), Ok(None));
    assert_eq!(string_property_value(": `x`", 0), Ok(None));
    assert_eq!(
        string_property_value(": 'x", 0),
        Err("unterminated string in workflow metadata".to_string())
    );
}

#[test]
fn quoted_strings_decode_their_escapes() {
    assert_eq!(decode_js_string(r"'a\nb\'c\q'"), Ok("a\nb'cq".to_string()));
    assert_eq!(decode_js_string(r#""tab\t\u0041""#), Ok("tab\tA".to_string()));
    assert_eq!(
        decode_js_string(""),
        Err("empty workflow metadata string".to_string())
    );
    assert_eq!(
        decode_js_string(r"'a\'"),
        Err("invalid trailing escape in workflow metadata".to_string())
    );
    assert!(decode_js_string("\"bad\\x\"")
        .unwrap_err()
        .starts_with("invalid workflow metadata string: "));
}

#[test]
fn positions_are_byte_positions_of_utf8_text() {
    let text = "{ ä: 'é}' }";
    assert_eq!(find_object_end(text), Ok(text.len() - 1));
    assert_eq!(skip_string(text.as_bytes(), 6), Ok(10));
    let source = "ünïcode: 'välue'";
    let key_end = source.find(':').unwrap();
    assert_eq!(string_property_value(source, key_end), Ok(Some("välue".to_string())));
    assert_eq!(string_property_value(source, 1), Ok(None));
    assert_eq!(string_property_value(source, source.len() + 3), Ok(None));
    assert_eq!(find_string_property("{ 'ké': 'v', ké: 'w' }", "ké"), Ok(Some("v".to_string())));
}
