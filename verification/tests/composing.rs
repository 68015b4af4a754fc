use lucene_sql::ast::{
    deanonymize, rename, replace_expressions, transform, Boundary, BoundaryKind, Literal,
    Operator, Term, Value,
};
use lucene_sql::compose::{is_composable, to_sql, Query};
use lucene_sql::parser::query;

fn named(key: &str, value: Value) -> Term {
    Term::Named { key: key.to_string(), value }
}

fn and(left: Term, right: Term, grouping: bool) -> Term {
    Term::Combined {
        left: Box::new(left),
        right: Box::new(right),
        operator: Operator::And,
        grouping,
    }
}

#[test]
fn renders_integer_equality() {
    let q = to_sql(&named("age", Value::Integer(7)), "people", None).unwrap();
    assert_eq!(q.body, "SELECT * FROM `people` WHERE `age` = :v0;");
    assert_eq!(q.named_params, vec![(":v0".to_string(), Literal::Integer(7))]);
}

#[test]
fn renders_boolean_equality() {
    let q = to_sql(&named("vip", Value::Boolean(false)), "t", None).unwrap();
    assert_eq!(q.body, "SELECT * FROM `t` WHERE `vip` = :v0;");
    assert_eq!(q.named_params, vec![(":v0".to_string(), Literal::Boolean(false))]);
}

#[test]
fn renders_text_as_substring_match() {
    let q = to_sql(&named("name", Value::Text("bo%b".to_string())), "t", None).unwrap();
    assert_eq!(
        q.body,
        "SELECT * FROM `t` WHERE `name` LIKE CONCAT('%', :v0, '%');"
    );
    assert_eq!(
        q.named_params,
        vec![(":v0".to_string(), Literal::Text("bo%b".to_string()))]
    );
}

#[test]
fn renders_range_boundary_operators() {
    let range = Value::Range(
        Boundary { value: 1, kind: BoundaryKind::Inclusive },
        Boundary { value: 10, kind: BoundaryKind::Exclusive },
    );
    let q = to_sql(&named("field", range), "t", None).unwrap();
    assert_eq!(
        q.body,
        "SELECT * FROM `t` WHERE (`field` >= :v0 AND `field` < :v1);"
    );
    assert_eq!(
        q.named_params,
        vec![
            (":v0".to_string(), Literal::Integer(1)),
            (":v1".to_string(), Literal::Integer(10)),
        ]
    );
}

#[test]
fn renders_exclusive_and_inclusive_swapped() {
    let range = Value::Range(
        Boundary { value: 1, kind: BoundaryKind::Exclusive },
        Boundary { value: 10, kind: BoundaryKind::Inclusive },
    );
    let q = to_sql(&named("f", range), "t", None).unwrap();
    assert_eq!(q.body, "SELECT * FROM `t` WHERE (`f` > :v0 AND `f` <= :v1);");
}

#[test]
fn whitelist_rejects_unlisted_field() {
    let tree = named("secret", Value::Integer(1));
    let allowed = Some(vec!["a".to_string(), "b".to_string()]);
    assert_eq!(to_sql(&tree, "t", allowed), Err("secret".to_string()));
    assert!(to_sql(&tree, "t", None).is_ok());
}

#[test]
fn whitelist_failures_join_field_names() {
    let tree = and(
        named("secret", Value::Integer(1)),
        named("hidden", Value::Integer(2)),
        false,
    );
    let allowed = Some(vec!["a".to_string()]);
    assert_eq!(to_sql(&tree, "t", allowed), Err("secret, hidden".to_string()));
}

#[test]
fn whitelist_controls_projection() {
    let allowed = Some(vec!["a".to_string(), "b".to_string()]);
    let q = to_sql(&named("a", Value::Integer(1)), "t", allowed).unwrap();
    assert_eq!(q.body, "SELECT `a`, `b` FROM `t` WHERE `a` = :v0;");
}

#[test]
fn expression_is_emitted_verbatim() {
    let q = to_sql(&Term::Expression("1 = 1".to_string()), "t", None).unwrap();
    assert_eq!(q.body, "SELECT * FROM `t` WHERE 1 = 1;");
    assert_eq!(q.named_params, vec![]);
}

#[test]
fn grouping_controls_parentheses() {
    let grouped = query("(a:1 AND b:2)").unwrap();
    let plain = query("a:1 AND b:2").unwrap();
    let gq = to_sql(&grouped, "t", None).unwrap();
    let pq = to_sql(&plain, "t", None).unwrap();
    assert_eq!(gq.body, "SELECT * FROM `t` WHERE (`a` = :v0 AND `b` = :v1);");
    assert_eq!(pq.body, "SELECT * FROM `t` WHERE `a` = :v0 AND `b` = :v1;");
}

#[test]
fn parameters_are_distinct_and_monotonic() {
    let tree = and(
        and(
            named("a", Value::Integer(1)),
            named(
                "r",
                Value::Range(
                    Boundary { value: 2, kind: BoundaryKind::Inclusive },
                    Boundary { value: 3, kind: BoundaryKind::Inclusive },
                ),
            ),
            false,
        ),
        named("t", Value::Text("x".to_string())),
        false,
    );
    let q = to_sql(&tree, "t", None).unwrap();
    let names: Vec<&str> = q.named_params.iter().map(|p| p.0.as_str()).collect();
    assert_eq!(names, vec![":v0", ":v1", ":v2", ":v3"]);
    for (i, (name, _)) in q.named_params.iter().enumerate() {
        assert_eq!(q.body.matches(name.as_str()).count(), 1, "{} appears once", name);
        assert_eq!(*name, format!(":v{}", i));
    }
}

#[test]
fn parameter_numbering_reaches_two_digits() {
    let mut tree = named("k0", Value::Integer(0));
    for i in 1..12 {
        let key = format!("k{}", i);
        tree = and(tree, named(&key, Value::Integer(i)), false);
    }
    let q = to_sql(&tree, "t", None).unwrap();
    assert_eq!(q.named_params.len(), 12);
    assert_eq!(q.named_params[9].0, ":v9");
    assert_eq!(q.named_params[10].0, ":v10");
    assert_eq!(q.named_params[11].0, ":v11");
    assert_eq!(q.named_params[11].1, Literal::Integer(11));
}

#[test]
fn default_terms_are_not_composable() {
    assert!(!is_composable(&Term::Default(Value::Integer(1))));
    assert!(is_composable(&named("a", Value::Integer(1))));
    assert!(!is_composable(&and(
        named("a", Value::Integer(1)),
        Term::Default(Value::Integer(2)),
        false,
    )));
}

#[test]
fn end_to_end_example() {
    let tree = query("status:active AND (age:[18 TO 30] OR vip:true)").unwrap();
    let defaults = vec!["text".to_string()];
    let tree = transform(tree, &|t| deanonymize(t, &defaults));
    let renames: Vec<(String, String)> = Vec::new();
    let tree = transform(tree, &|t| rename(t, &renames));
    let ruleset = Vec::new();
    let tree = transform(tree, &|t| replace_expressions(t, &ruleset));
    assert!(is_composable(&tree));
    let q: Query = to_sql(&tree, "users", None).unwrap();
    assert_eq!(
        q.body,
        "SELECT * FROM `users` WHERE `status` LIKE CONCAT('%', :v0, '%') AND ((`age` >= :v1 AND `age` <= :v2) OR `vip` = :v3);"
    );
    assert_eq!(
        q.named_params,
        vec![
            (":v0".to_string(), Literal::Text("active".to_string())),
            (":v1".to_string(), Literal::Integer(18)),
            (":v2".to_string(), Literal::Integer(30)),
            (":v3".to_string(), Literal::Boolean(true)),
        ]
    );
}
