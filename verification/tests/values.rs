//! Texts, JSON values, errors and states.

use radkit::a2a::TaskState;
use radkit::errors::AgentError;
use radkit::json::{JsonMap, JsonNumber, JsonValue, NEGATIVE_ZERO_BITS};
use radkit::models::Content;
use radkit::text::{
    ascii_uppercase, begins_with, contains, decimal_text, joined, len_in_bytes, pieces_on,
    read_unsigned, same_text, signed_decimal_text, trimmed, words_of,
};

#[test]
fn numbers_are_written_in_decimal() {
    assert_eq!(decimal_text(0), "0");
    assert_eq!(decimal_text(1907), "1907");
    assert_eq!(decimal_text(u64::MAX), "18446744073709551615");
    assert_eq!(signed_decimal_text(-42), "-42");
    assert_eq!(signed_decimal_text(i32::MIN), "-2147483648");
    assert_eq!(signed_decimal_text(7), "7");
}

#[test]
fn numbers_are_read_back() {
    for n in [0, 1, 9, 10, 12345, u64::MAX] {
        assert_eq!(read_unsigned(&decimal_text(n), u64::MAX), Some(n));
    }
    assert_eq!(read_unsigned("", 100), None);
    assert_eq!(read_unsigned("+", 100), None);
    assert_eq!(read_unsigned("+5", 100), Some(5));
    assert_eq!(read_unsigned("-5", 100), None);
    assert_eq!(read_unsigned("101", 100), None);
    assert_eq!(read_unsigned("007", 100), Some(7));
    assert_eq!(read_unsigned("1a", 100), None);
}

#[test]
fn texts_are_taken_apart() {
    assert_eq!(pieces_on("a-b--c", '-'), vec!["a", "b", "", "c"]);
    assert_eq!(pieces_on("", '-'), vec![""]);
    assert_eq!(words_of("  a\tb \u{3000} c\n"), vec!["a", "b", "c"]);
    assert_eq!(trimmed(" \u{a0}x y\n"), "x y");
    assert_eq!(joined(&vec!["a".to_string(), "b".to_string()], ", "), "a, b");
    assert_eq!(joined(&Vec::new(), ", "), "");
    assert!(contains("haystack", "st"));
    assert!(contains("x", ""));
    assert!(!contains("", "x"));
    assert!(begins_with("---x", "---"));
    assert!(!begins_with("--", "---"));
    assert!(same_text("a", "a"));
    assert!(!same_text("a", "b"));
    assert_eq!(len_in_bytes("a\u{e9}\u{20ac}\u{1F600}"), 1 + 2 + 3 + 4);
    assert_eq!(ascii_uppercase("a\u{e9}z1"), "A\u{e9}Z1");
}

#[test]
fn texts_of_contents_are_joined_by_lines() {
    let mut content = Content::from_text("a".to_string());
    assert_eq!(content.joined_texts(), Some("a".to_string()));
    content.push(radkit::models::ContentPart::Text("b".to_string()));
    assert_eq!(content.joined_texts(), Some("a\nb".to_string()));
    assert_eq!(Content::default().joined_texts(), None);
    assert_eq!(Content::default().first_text(), None);
}

#[test]
fn maps_hold_one_value_for_a_key() {
    let mut map = JsonMap::new();
    assert!(map.is_empty());
    map.insert("k".to_string(), JsonValue::Bool(true));
    map.insert("l".to_string(), JsonValue::Null);
    map.insert("k".to_string(), JsonValue::Bool(false));
    assert_eq!(map.len(), 2);
    assert!(matches!(map.get("k"), Some(JsonValue::Bool(false))));
    assert!(map.contains_key("l"));
    assert!(map.remove("l").is_some());
    assert!(map.get("l").is_none());
    assert_eq!(map.entries().len(), 1);
}

#[test]
fn values_are_compared_by_content() {
    let float = |x: f64| JsonValue::Number(JsonNumber::Float { bits: x.to_bits() });
    assert!(float(0.0).same(&float(-0.0)));
    assert_eq!((-0.0f64).to_bits(), NEGATIVE_ZERO_BITS);
    assert!(float(1.5).same(&float(1.5)));
    assert!(!float(1.5).same(&float(2.5)));
    let one = JsonValue::Number(JsonNumber::PosInt(1));
    assert!(!one.same(&float(1.0)));
    let ab = JsonValue::object2("a", JsonValue::Null, "b", one.clone());
    let ba = JsonValue::object2("b", one.clone(), "a", JsonValue::Null);
    assert!(ab.same(&ba));
    assert!(!ab.same(&JsonValue::object1("a", JsonValue::Null)));
    assert!(JsonValue::array1(one.clone()).same(&JsonValue::array1(one.clone())));
    assert!(!JsonValue::array1(one.clone()).same(&JsonValue::array2(one.clone(), one)));
}

#[test]
fn values_are_read_by_kind() {
    let v = JsonValue::object3(
        "t",
        JsonValue::text("x"),
        "n",
        JsonValue::Number(JsonNumber::PosInt(3)),
        "a",
        JsonValue::array1(JsonValue::Null),
    );
    assert_eq!(v.str_at("t"), Some("x"));
    assert_eq!(v.u64_at("n"), Some(3));
    assert_eq!(v.array_at("a").map(Vec::len), Some(1));
    assert_eq!(v.str_at("n"), None);
    assert!(v.get("absent").is_none());
    assert!(JsonValue::Null.get("t").is_none());
    assert!(v.duplicate().same(&v));
}

#[test]
fn errors_say_what_is_wrong() {
    let errors = vec![
        AgentError::InvalidInput("w".to_string()),
        AgentError::ContextError("w".to_string()),
        AgentError::SkillSlot("w".to_string()),
        AgentError::TaskNotFound { task_id: "w".to_string() },
        AgentError::SkillNotFound { skill_id: "w".to_string() },
        AgentError::Internal { component: "c".to_string(), reason: "w".to_string() },
        AgentError::InvalidTaskStateTransition { from: "a".to_string(), to: "w".to_string() },
        AgentError::NotImplemented { feature: "w".to_string() },
        AgentError::Validation { field: "f".to_string(), reason: "w".to_string() },
        AgentError::Serialization { format: "f".to_string(), reason: "w".to_string() },
        AgentError::LlmProvider { provider: "p".to_string(), message: "w".to_string() },
        AgentError::LlmAuthentication { provider: "w".to_string() },
        AgentError::LlmRateLimit { provider: "w".to_string() },
        AgentError::Network("w".to_string()),
        AgentError::ResourceExhausted { resource: "r".to_string(), reason: "w".to_string() },
        AgentError::SecurityViolation { policy: "p".to_string(), reason: "w".to_string() },
        AgentError::MissingConfiguration { field: "w".to_string() },
        AgentError::InvalidConfiguration { field: "f".to_string(), reason: "w".to_string() },
    ];
    let texts: Vec<String> = errors.iter().map(|e| e.to_string()).collect();
    for (i, t) in texts.iter().enumerate() {
        assert!(t.contains('w'), "{t}");
        assert!(!texts[..i].contains(t), "{t}");
    }
}

#[test]
fn states_have_codes_and_names() {
    for code in 0..9 {
        let state = TaskState::from_code(code).expect("a state");
        assert_eq!(state.to_code(), code);
    }
    assert!(TaskState::from_code(9).is_none());
    assert!(TaskState::from_code(-1).is_none());
    assert_eq!(TaskState::InputRequired.to_name(), "InputRequired");
    assert_eq!(TaskState::Completed.to_code(), a2a_types::TaskState::Completed as i32);
    assert_eq!(TaskState::AuthRequired.to_code(), a2a_types::TaskState::AuthRequired as i32);
}
