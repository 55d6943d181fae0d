use invoke_bindgen::ast::GenerationError;
use invoke_bindgen::attrs::{parse_invoke_binding_attrs, parse_key_value_pairs};
use invoke_bindgen::wire::wire_name;

#[test]
fn wire_name_keeps_plain_names() {
    assert_eq!(wire_name("name"), "name");
    assert_eq!(wire_name("id"), "id");
}

#[test]
fn wire_name_camels_snake_case() {
    assert_eq!(wire_name("user_name"), "userName");
    assert_eq!(wire_name("some_long_field"), "someLongField");
}

#[test]
fn wire_name_edge_cases() {
    assert_eq!(wire_name(""), "");
    assert_eq!(wire_name("_foo"), "foo");
    assert_eq!(wire_name("a__b"), "aB");
    assert_eq!(wire_name("a_1b"), "a1b");
    assert_eq!(wire_name("trailing_"), "trailing");
}

#[test]
fn wire_name_lowercases_the_first_character() {
    assert_eq!(wire_name("Abc"), "abc");
    assert_eq!(wire_name("X"), "x");
    assert_eq!(wire_name("Already_upper"), "alreadyUpper");
}

#[test]
fn attrs_parse_single_prefix() {
    let cfg = parse_invoke_binding_attrs("cmd_prefix = \"app_\"").unwrap();
    assert_eq!(cfg.cmd_prefix.as_deref(), Some("app_"));
}

#[test]
fn attrs_empty_text_means_no_prefix() {
    let cfg = parse_invoke_binding_attrs("").unwrap();
    assert_eq!(cfg.cmd_prefix, None);
    let cfg = parse_invoke_binding_attrs("   ").unwrap();
    assert_eq!(cfg.cmd_prefix, None);
}

#[test]
fn attrs_unknown_keys_are_ignored_and_last_prefix_wins() {
    let cfg = parse_invoke_binding_attrs("other = \"x\" cmd_prefix = \"a\" cmd_prefix = \"b\"")
        .unwrap();
    assert_eq!(cfg.cmd_prefix.as_deref(), Some("b"));
}

#[test]
fn attrs_pairs_come_out_in_order() {
    let kvs = parse_key_value_pairs("one = \"1\"  two = \"2\"").unwrap();
    assert_eq!(kvs.len(), 2);
    assert_eq!(kvs[0].key, "one");
    assert_eq!(kvs[0].value, "1");
    assert_eq!(kvs[1].key, "two");
    assert_eq!(kvs[1].value, "2");
}

#[test]
fn attrs_missing_equals_is_a_missing_separator() {
    let r = parse_invoke_binding_attrs("cmd_prefix \"app_\"");
    assert_eq!(r.unwrap_err(), GenerationError::MissingSeparator);
}

#[test]
fn attrs_unterminated_value_is_a_missing_separator() {
    let r = parse_invoke_binding_attrs("cmd_prefix = \"app_");
    assert_eq!(r.unwrap_err(), GenerationError::MissingSeparator);
}

#[test]
fn attrs_unquoted_value_is_malformed() {
    let r = parse_invoke_binding_attrs("cmd_prefix = app_");
    assert_eq!(r.unwrap_err(), GenerationError::MalformedKeyValue);
}

#[test]
fn attrs_non_identifier_key_is_malformed() {
    let r = parse_invoke_binding_attrs("1key = \"v\"");
    assert_eq!(r.unwrap_err(), GenerationError::MalformedKeyValue);
}

#[test]
fn attrs_values_unescape_simple_escapes() {
    let cfg = parse_invoke_binding_attrs("cmd_prefix = \"a\\nb\"").unwrap();
    assert_eq!(cfg.cmd_prefix.as_deref(), Some("a\nb"));
    let cfg = parse_invoke_binding_attrs("cmd_prefix = \"say \\\"hi\\\"\"").unwrap();
    assert_eq!(cfg.cmd_prefix.as_deref(), Some("say \"hi\""));
    let cfg = parse_invoke_binding_attrs("cmd_prefix = \"a\\\\b\\t\\r\\0\"").unwrap();
    assert_eq!(cfg.cmd_prefix.as_deref(), Some("a\\b\t\r\0"));
}

#[test]
fn attrs_values_unescape_hex_and_unicode_escapes() {
    let cfg = parse_invoke_binding_attrs("cmd_prefix = \"\\x41\\u{48}\"").unwrap();
    assert_eq!(cfg.cmd_prefix.as_deref(), Some("AH"));
    let cfg = parse_invoke_binding_attrs("cmd_prefix = \"\\u{1F600}\"").unwrap();
    assert_eq!(cfg.cmd_prefix.as_deref(), Some("\u{1F600}"));
}

#[test]
fn attrs_invalid_escapes_are_malformed() {
    let bad = [
        "k = \"a\\qb\"",
        "k = \"\\x4g\"",
        "k = \"\\x80\"",
        "k = \"\\u{}\"",
        "k = \"\\u{D800}\"",
        "k = \"\\u{110000}\"",
    ];
    for text in bad {
        assert_eq!(
            parse_invoke_binding_attrs(text).unwrap_err(),
            GenerationError::MalformedKeyValue
        );
    }
}

#[test]
fn attrs_unterminated_escape_misses_its_separator() {
    let cut = ["k = \"a\\", "k = \"\\u{12", "k = \"\\x4"];
    for text in cut {
        assert_eq!(
            parse_invoke_binding_attrs(text).unwrap_err(),
            GenerationError::MissingSeparator
        );
    }
}
