use lucene_sql::ast::{Boundary, BoundaryKind, Operator, Term, Value};
use lucene_sql::parser::query;

fn named(key: &str, value: Value) -> Term {
    Term::Named { key: key.to_string(), value }
}

fn combined(left: Term, right: Term, operator: Operator, grouping: bool) -> Term {
    Term::Combined { left: Box::new(left), right: Box::new(right), operator, grouping }
}

#[test]
fn parses_named_integer_literal() {
    assert_eq!(query("f:42"), Ok(named("f", Value::Integer(42))));
}

#[test]
fn parses_largest_integer() {
    assert_eq!(
        query("f:9223372036854775807"),
        Ok(named("f", Value::Integer(i64::MAX)))
    );
}

#[test]
fn integer_overflow_is_a_parse_error() {
    assert!(query("f:9223372036854775808").is_err());
    assert!(query("f:99999999999999999999").is_err());
}

#[test]
fn whitespace_reads_as_or() {
    let spaced = query("a b").unwrap();
    let explicit = query("a OR b").unwrap();
    assert_eq!(
        spaced,
        combined(
            Term::Default(Value::Text("a".to_string())),
            Term::Default(Value::Text("b".to_string())),
            Operator::Or,
            false,
        )
    );
    assert_eq!(spaced, explicit);
}

#[test]
fn explicit_operators_and_symbols() {
    let and_word = query("a AND b").unwrap();
    let and_symbol = query("a && b").unwrap();
    assert_eq!(and_word, and_symbol);
    let or_word = query("a OR b").unwrap();
    let or_symbol = query("a || b").unwrap();
    assert_eq!(or_word, or_symbol);
    match and_word {
        Term::Combined { operator, grouping, .. } => {
            assert_eq!(operator, Operator::And);
            assert!(!grouping);
        },
        other => panic!("expected a combined term, got {:?}", other),
    }
}

#[test]
fn grouping_is_preserved() {
    let grouped = query("(a AND b)").unwrap();
    match &grouped {
        Term::Combined { operator, grouping, .. } => {
            assert_eq!(*operator, Operator::And);
            assert!(*grouping);
        },
        other => panic!("expected a combined term, got {:?}", other),
    }
    let plain = query("a AND b").unwrap();
    match &plain {
        Term::Combined { grouping, .. } => assert!(!*grouping),
        other => panic!("expected a combined term, got {:?}", other),
    }
}

#[test]
fn chains_associate_to_the_left() {
    let chain = query("a b c").unwrap();
    let a = Term::Default(Value::Text("a".to_string()));
    let b = Term::Default(Value::Text("b".to_string()));
    let c = Term::Default(Value::Text("c".to_string()));
    assert_eq!(
        chain,
        combined(combined(a, b, Operator::Or, false), c, Operator::Or, false)
    );
}

#[test]
fn parses_booleans_before_text() {
    assert_eq!(query("vip:true"), Ok(named("vip", Value::Boolean(true))));
    assert_eq!(query("vip:false"), Ok(named("vip", Value::Boolean(false))));
    assert_eq!(query("true"), Ok(Term::Default(Value::Boolean(true))));
}

#[test]
fn parses_ranges_with_independent_boundaries() {
    assert_eq!(
        query("age:[18 TO 30}"),
        Ok(named(
            "age",
            Value::Range(
                Boundary { value: 18, kind: BoundaryKind::Inclusive },
                Boundary { value: 30, kind: BoundaryKind::Exclusive },
            )
        ))
    );
    assert_eq!(
        query("age:{1 TO 2]"),
        Ok(named(
            "age",
            Value::Range(
                Boundary { value: 1, kind: BoundaryKind::Exclusive },
                Boundary { value: 2, kind: BoundaryKind::Inclusive },
            )
        ))
    );
}

#[test]
fn reversed_range_is_accepted() {
    assert_eq!(
        query("n:[10 TO 1]"),
        Ok(named(
            "n",
            Value::Range(
                Boundary { value: 10, kind: BoundaryKind::Inclusive },
                Boundary { value: 1, kind: BoundaryKind::Inclusive },
            )
        ))
    );
}

#[test]
fn malformed_range_is_a_parse_error() {
    assert!(query("age:[18 30]").is_err());
    assert!(query("age:[18 TO 30").is_err());
    assert!(query("age:[x TO 30]").is_err());
}

#[test]
fn parses_quoted_phrases_with_escapes() {
    assert_eq!(
        query("\"a b\""),
        Ok(Term::Default(Value::Text("a b".to_string())))
    );
    assert_eq!(
        query("\"a\\nb\\t\\\"c\\\\\""),
        Ok(Term::Default(Value::Text("a\nb\t\"c\\".to_string())))
    );
}

#[test]
fn unterminated_phrase_is_a_parse_error() {
    assert!(query("\"abc").is_err());
}

#[test]
fn empty_input_is_a_parse_error() {
    let err = query("").unwrap_err();
    assert_eq!(err.position, 0);
    assert!(query("   ").is_err());
}

#[test]
fn trailing_garbage_is_a_parse_error() {
    assert!(query("(a").is_err());
    assert!(query("a:").is_err());
    assert!(query("a )").is_err());
}

#[test]
fn bare_tokens_allow_dots_dashes_underscores() {
    assert_eq!(
        query("x:a-b_c.d"),
        Ok(named("x", Value::Text("a-b_c.d".to_string())))
    );
}
