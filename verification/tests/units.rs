//! Unit tests of the value model, literal conversion, and the utilities.

use core::str::FromStr;
use nxt::ast::Variable;
use nxt::literal::{parse_int_token, IntTokenError};
use nxt::util::{ColorConfig, IndexVec};
use nxt::value::{str_eq, str_lt, Attrs, NixPath, Type, Value};

#[test]
fn integer_tokens_parse_exactly() {
    assert_eq!(parse_int_token("0"), Ok(0));
    assert_eq!(parse_int_token("42"), Ok(42));
    assert_eq!(parse_int_token("9223372036854775807"), Ok(i64::MAX));
}

#[test]
fn integer_tokens_out_of_range_are_rejected() {
    assert_eq!(parse_int_token("9223372036854775808"), Err(IntTokenError::OutOfRange));
    assert_eq!(parse_int_token("99999999999999999999"), Err(IntTokenError::OutOfRange));
}

#[test]
fn integer_tokens_with_other_characters_are_rejected() {
    assert_eq!(parse_int_token(""), Err(IntTokenError::Invalid));
    assert_eq!(parse_int_token("-1"), Err(IntTokenError::Invalid));
    assert_eq!(parse_int_token("1a"), Err(IntTokenError::Invalid));
    assert_eq!(parse_int_token(" 1"), Err(IntTokenError::Invalid));
}

#[test]
fn string_order_is_lexicographic() {
    assert!(str_lt("a", "b"));
    assert!(str_lt("a", "aa"));
    assert!(!str_lt("b", "a"));
    assert!(!str_lt("a", "a"));
    assert!(str_lt("", "a"));
    assert!(str_lt("abc", "abd"));
    assert!(str_eq("abc", "abc"));
    assert!(!str_eq("abc", "abd"));
}

#[test]
fn attrs_keep_sorted_unique_keys() {
    let mut attrs = Attrs::new();
    assert!(attrs.insert("b".to_string(), 10).is_ok());
    assert!(attrs.insert("a".to_string(), 11).is_ok());
    assert!(attrs.insert("c".to_string(), 12).is_ok());
    assert!(attrs.insert("a".to_string(), 13).is_err());
    assert_eq!(attrs.len(), 3);
    assert_eq!(attrs.key_at(0).as_str(), "a");
    assert_eq!(attrs.key_at(1).as_str(), "b");
    assert_eq!(attrs.key_at(2).as_str(), "c");
    assert_eq!(attrs.get("a"), Some(11));
    assert_eq!(attrs.get("b"), Some(10));
    assert_eq!(attrs.get("d"), None);
}

#[test]
fn value_type_tags() {
    assert_eq!(Value::Int(1).type_(), Type::Int);
    assert_eq!(Value::Bool(true).type_(), Type::Bool);
    assert_eq!(Value::Null.type_(), Type::Null);
    assert_eq!(Value::Str("x".to_string()).type_(), Type::Str);
    assert_eq!(Value::List(vec![]).type_(), Type::List);
}

#[test]
fn value_as_bool_narrows() {
    assert_eq!(Value::Bool(true).as_bool(), Some(true));
    assert_eq!(Value::Bool(false).as_bool(), Some(false));
    assert_eq!(Value::Int(0).as_bool(), None);
    assert_eq!(Value::Null.as_bool(), None);
}

#[test]
fn color_config_parses() {
    assert_eq!(ColorConfig::from_str("auto"), Ok(ColorConfig::Auto));
    assert_eq!(ColorConfig::from_str("always"), Ok(ColorConfig::Always));
    assert_eq!(ColorConfig::from_str("never"), Ok(ColorConfig::Never));
    assert!(ColorConfig::from_str("sometimes").is_err());
    assert_eq!(ColorConfig::default(), ColorConfig::Auto);
}

#[test]
fn index_vec_is_indexed_by_variables() {
    let mut v: IndexVec<&str, Variable> = IndexVec::new();
    v.push("zero");
    v.push("one");
    assert_eq!(v.len(), 2);
    assert_eq!(*v.get(Variable(0)), "zero");
    assert_eq!(*v.get(Variable(1)), "one");
    v.set(Variable(0), "changed");
    assert_eq!(*v.get(Variable(0)), "changed");
    let w: IndexVec<u8, Variable> = IndexVec::with_capacity(8);
    assert_eq!(w.len(), 0);
}

#[test]
fn rendering_is_deterministic_and_lazy() {
    assert_eq!(Value::Int(0).render(), "0");
    assert_eq!(Value::Int(42).render(), "42");
    assert_eq!(Value::Int(-7).render(), "-7");
    assert_eq!(Value::Int(i64::MAX).render(), "9223372036854775807");
    assert_eq!(Value::Int(i64::MIN).render(), "-9223372036854775808");
    assert_eq!(Value::Bool(true).render(), "true");
    assert_eq!(Value::Null.render(), "null");
    assert_eq!(Value::Path(NixPath::Normal("/a/b".to_string())).render(), "/a/b");
    assert_eq!(Value::Path(NixPath::Store("pkgs".to_string())).render(), "<pkgs>");
    assert_eq!(Value::Str("hi".to_string()).render(), "\"hi\"");
    assert_eq!(Value::List(vec![]).render(), "[ ]");
    assert_eq!(Value::List(vec![5, 6]).render(), "[ ... ... ]");
    let mut attrs = Attrs::new();
    attrs.insert("b".to_string(), 1).unwrap();
    attrs.insert("a".to_string(), 2).unwrap();
    assert_eq!(Value::AttrSet(attrs).render(), "{ a = ...; b = ...; }");
}
