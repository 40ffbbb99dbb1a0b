use animus_subject_default::methods::normalize_status;
use animus_subject_default::methods::patch::canonical_priority;
use animus_subject_default::text::{
    at_most, count_up, decimal_text, joined, lower_ascii, numeral_digits, padded_digits,
    parse_unsigned, same, starts_with, strip_prefix, trim, white_space, zero_padded_text, IntError,
};
use animus_subject_default::value::{
    empty_array, string_value, strings_in, strings_value, Number, Object, Value,
};

#[test]
fn white_space_is_that_of_unicode() {
    for code in 0..=0x10ffff_u32 {
        if let Some(c) = char::from_u32(code) {
            assert_eq!(white_space(c), c.is_whitespace(), "U+{code:04X}");
        }
    }
}

#[test]
fn trimming_takes_white_space_off_both_ends() {
    for s in [
        "",
        " ",
        "a",
        " a b ",
        "\t\n\u{85}\u{a0}x\u{2003}\u{3000}",
        "\u{200b}x\u{200b}",
        "\u{feff}y",
        "no space",
        "   ",
    ] {
        assert_eq!(trim(s), s.trim());
        assert_eq!(trim(trim(s)), s.trim());
    }
}

#[test]
fn lower_case_is_that_of_ascii() {
    for s in ["", "ABCxyzAZ@[`{", "\u{c4}\u{d6}\u{dc} P0", "\u{212a}"] {
        assert_eq!(lower_ascii(s), s.to_ascii_lowercase());
    }
}

#[test]
fn strings_are_compared_by_their_characters() {
    assert!(same("", ""));
    assert!(same("a\u{e9}", "a\u{e9}"));
    assert!(!same("a", "ab"));
    assert!(!same("ab", "a"));
    assert!(!same("a", "A"));
    assert_eq!(joined("\u{e9}", "x"), "\u{e9}x");
}

#[test]
fn prefixes_are_stripped() {
    for (s, p) in [
        ("task/list", "task/"),
        ("task/", "task/"),
        ("task", "task/"),
        ("", ""),
        ("x", ""),
        ("\u{e9}x", "\u{e9}"),
        ("xtask/", "task/"),
    ] {
        assert_eq!(strip_prefix(s, p), s.strip_prefix(p));
        assert_eq!(starts_with(s, p), s.starts_with(p));
    }
}

#[test]
fn numbers_are_written_in_decimal_form() {
    for n in [0u128, 7, 9, 10, 999, 1000, 4294967295, u128::MAX] {
        assert_eq!(decimal_text(n), format!("{n}"));
        assert_eq!(zero_padded_text(n, 0), format!("{n}"));
        assert_eq!(zero_padded_text(n, 3), format!("{n:03}"));
        assert_eq!(zero_padded_text(n, 12), format!("{n:012}"));
    }
}

#[test]
fn numbers_are_read_back() {
    for n in [0u64, 1, 42, 4294967295] {
        for width in [0usize, 3, 12] {
            let text = zero_padded_text(n as u128, width);
            assert_eq!(parse_unsigned(&text, u32::MAX as u64), Ok(n));
        }
    }
}

#[test]
fn digits_of_any_size_are_read_compared_and_counted() {
    let digits = |s: &str| s.chars().collect::<Vec<char>>();
    assert_eq!(numeral_digits("+0120"), Some(digits("0120")));
    for s in ["", "+", "-1", "1 ", "++1", "1x"] {
        assert_eq!(numeral_digits(s), None);
    }
    for (a, b) in [(0u32, 0u32), (7, 10), (10, 7), (99, 100), (123, 132), (5, 5)] {
        for width in [0usize, 5] {
            let (left, right) = (format!("{a:0width$}"), format!("{b}"));
            assert_eq!(at_most(&digits(&left), &digits(&right)), a <= b);
            assert_eq!(at_most(&digits(&right), &digits(&left)), b <= a);
        }
    }
    for (n, next) in [("", "1"), ("0", "1"), ("9", "10"), ("199", "200"), ("099", "100")] {
        let mut number = digits(n);
        count_up(&mut number);
        assert_eq!(number, digits(next));
    }
    assert_eq!(padded_digits(&digits("0012"), 3), "012");
    assert_eq!(padded_digits(&digits("1200"), 3), "1200");
}

#[test]
fn faulty_numbers_are_told_apart() {
    assert_eq!(parse_unsigned("", 9), Err(IntError::Empty));
    assert_eq!(parse_unsigned("+", 9), Err(IntError::InvalidDigit));
    assert_eq!(parse_unsigned("-1", 9), Err(IntError::InvalidDigit));
    assert_eq!(parse_unsigned("1x", 9), Err(IntError::InvalidDigit));
    assert_eq!(parse_unsigned("10", 9), Err(IntError::TooLarge));
    assert_eq!(parse_unsigned("10x", 9), Err(IntError::TooLarge));
    assert_eq!(parse_unsigned("1x0", 9), Err(IntError::InvalidDigit));
    assert_eq!(parse_unsigned("+9", 9), Ok(9));
    assert_eq!(parse_unsigned("0", 0), Ok(0));
    assert_eq!(
        parse_unsigned("18446744073709551615", u64::MAX),
        Ok(u64::MAX)
    );
    assert_eq!(
        parse_unsigned("18446744073709551616", u64::MAX),
        Err(IntError::TooLarge)
    );
    assert_eq!(
        parse_unsigned("184467440737095516150", u64::MAX),
        Err(IntError::TooLarge)
    );
}

#[test]
fn statuses_are_normalized() {
    for (native, status) in [
        ("ready", "ready"),
        ("in-progress", "in-progress"),
        ("in_progress", "in-progress"),
        ("blocked", "blocked"),
        ("done", "done"),
        ("completed", "done"),
        ("cancelled", "cancelled"),
        ("backlog", "ready"),
        ("draft", "ready"),
        ("triage", "ready"),
        ("", "ready"),
        ("Blocked", "ready"),
    ] {
        assert_eq!(normalize_status(native), status);
        assert_eq!(normalize_status(status), status);
    }
}

#[test]
fn priorities_have_a_canonical_form() {
    for (raw, priority) in [
        ("critical", "critical"),
        ("P0", "critical"),
        (" High ", "high"),
        ("p1", "high"),
        ("MEDIUM", "medium"),
        ("p2", "medium"),
        ("\tlow\n", "low"),
        ("P3", "low"),
        ("p4", "p4"),
        (" Urgent! ", "urgent!"),
        ("", ""),
        ("\u{c4}", "\u{c4}"),
    ] {
        assert_eq!(canonical_priority(raw), priority);
        assert_eq!(canonical_priority(priority), priority);
    }
}

#[test]
fn members_are_set_replaced_and_taken_out() {
    let mut object = Object::new();
    assert!(object.is_empty());
    object.insert("a", Value::Bool(true));
    object.insert("b", Value::Null);
    object.insert("a", string_value("x"));
    assert_eq!(object.len(), 2);
    assert_eq!(object.key_at(0), "a");
    assert_eq!(object.value_at(0).as_str(), Some("x"));
    assert!(object.get("b").unwrap().is_null());
    assert!(object.get("c").is_none());
    object.remove("a");
    object.remove("c");
    assert_eq!(object.len(), 1);
    assert!(object.get("a").is_none());
    assert!(!object.is_empty());
    object.remove("b");
    assert!(object.is_empty());
}

#[test]
fn documents_answer_by_their_kind() {
    let mut inner = Object::new();
    inner.insert("flag", Value::Bool(true));
    let mut object = Object::new();
    object.insert("text", string_value("t"));
    object.insert("flag", Value::Bool(false));
    object.insert("number", Value::Number(Number::PosInt(7)));
    object.insert("items", Value::Array(vec![Value::Null, string_value("s")]));
    object.insert("inner", Value::Object(inner));
    let value = Value::Object(object);
    assert_eq!(value.text("text"), Some("t"));
    assert_eq!(value.text("flag"), None);
    assert_eq!(value.flag("flag"), Some(false));
    assert_eq!(value.flag("text"), None);
    assert_eq!(value.get("number").unwrap().as_u64(), Some(7));
    assert_eq!(value.get("text").unwrap().as_u64(), None);
    assert_eq!(value.items("items").unwrap().len(), 2);
    assert!(value.items("text").is_none());
    assert_eq!(value.nested("inner", "flag").unwrap().as_bool(), Some(true));
    assert!(value.nested("text", "flag").is_none());
    assert!(value.nested("missing", "flag").is_none());
    assert!(value.as_object().is_some());
    assert!(Value::Null.as_object().is_none());
    assert!(Value::Null.get("x").is_none());
    assert_eq!(Value::Number(Number::NegInt(-1)).as_u64(), None);
    assert_eq!(
        Value::Number(Number::Float("1.0".to_string())).as_u64(),
        None
    );
}

#[test]
fn only_objects_take_members() {
    let mut null = Value::Null;
    null.set("a", Value::Null);
    null.unset("a");
    assert!(null.is_null());
    let mut object = Value::Object(Object::new());
    object.set("a", Value::Bool(true));
    let copy = object.clone();
    object.unset("a");
    assert!(object.get("a").is_none());
    assert_eq!(copy.flag("a"), Some(true));
}

#[test]
fn arrays_of_strings_go_both_ways() {
    let strings = vec!["a".to_string(), "b".to_string(), "a".to_string()];
    let value = strings_value(&strings);
    assert_eq!(strings_in(value.as_array().unwrap()), strings);
    let mixed = vec![Value::Null, string_value("x"), empty_array(), string_value("y")];
    assert_eq!(strings_in(&mixed), vec!["x".to_string(), "y".to_string()]);
    assert_eq!(empty_array().as_array().unwrap().len(), 0);
}
