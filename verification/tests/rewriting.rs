use lucene_sql::ast::{
    deanonymize, rename, replace_expressions, transform, Boundary, BoundaryKind, Literal,
    Operator, Term, Value,
};

fn named(key: &str, value: Value) -> Term {
    Term::Named { key: key.to_string(), value }
}

fn or(left: Term, right: Term) -> Term {
    Term::Combined {
        left: Box::new(left),
        right: Box::new(right),
        operator: Operator::Or,
        grouping: false,
    }
}

#[test]
fn deanonymize_fans_out_over_default_fields() {
    let fields = vec!["a".to_string(), "b".to_string(), "c".to_string()];
    let out = deanonymize(Term::Default(Value::Text("x".to_string())), &fields);
    let x = || Value::Text("x".to_string());
    assert_eq!(
        out,
        or(or(named("a", x()), named("b", x())), named("c", x()))
    );
}

#[test]
fn deanonymize_single_field_yields_bare_named() {
    let fields = vec!["a".to_string()];
    let out = deanonymize(Term::Default(Value::Integer(7)), &fields);
    assert_eq!(out, named("a", Value::Integer(7)));
}

#[test]
fn deanonymize_leaves_named_terms_alone() {
    let fields = vec!["a".to_string()];
    let input = named("k", Value::Boolean(true));
    assert_eq!(deanonymize(input, &fields), named("k", Value::Boolean(true)));
}

#[test]
fn rename_replaces_mapped_keys_only() {
    let renames = vec![
        ("old".to_string(), "new".to_string()),
        ("other".to_string(), "else".to_string()),
    ];
    assert_eq!(
        rename(named("old", Value::Integer(1)), &renames),
        named("new", Value::Integer(1))
    );
    assert_eq!(
        rename(named("unmapped", Value::Integer(1)), &renames),
        named("unmapped", Value::Integer(1))
    );
    assert_eq!(
        rename(Term::Expression("x".to_string()), &renames),
        Term::Expression("x".to_string())
    );
}

#[test]
fn replace_expressions_takes_first_matching_rule() {
    let ruleset = vec![(
        "status".to_string(),
        vec![
            (Literal::Text("active".to_string()), "s = 1".to_string()),
            (Literal::Text("active".to_string()), "s = 2".to_string()),
            (Literal::Integer(3), "s = 3".to_string()),
        ],
    )];
    assert_eq!(
        replace_expressions(named("status", Value::Text("active".to_string())), &ruleset),
        Term::Expression("s = 1".to_string())
    );
    assert_eq!(
        replace_expressions(named("status", Value::Integer(3)), &ruleset),
        Term::Expression("s = 3".to_string())
    );
}

#[test]
fn replace_expressions_requires_exact_type_and_value() {
    let ruleset = vec![(
        "n".to_string(),
        vec![(Literal::Integer(1), "one".to_string())],
    )];
    assert_eq!(
        replace_expressions(named("n", Value::Integer(2)), &ruleset),
        named("n", Value::Integer(2))
    );
    assert_eq!(
        replace_expressions(named("n", Value::Text("1".to_string())), &ruleset),
        named("n", Value::Text("1".to_string()))
    );
    let range = Value::Range(
        Boundary { value: 1, kind: BoundaryKind::Inclusive },
        Boundary { value: 1, kind: BoundaryKind::Inclusive },
    );
    assert_eq!(
        replace_expressions(named("n", range.clone()), &ruleset),
        named("n", range)
    );
    assert_eq!(
        replace_expressions(named("unknown", Value::Integer(1)), &ruleset),
        named("unknown", Value::Integer(1))
    );
}

#[test]
fn transform_rewrites_leaves_and_keeps_structure() {
    let fields = vec!["a".to_string(), "b".to_string()];
    let tree = Term::Combined {
        left: Box::new(Term::Default(Value::Text("x".to_string()))),
        right: Box::new(named("k", Value::Integer(1))),
        operator: Operator::And,
        grouping: true,
    };
    let out = transform(tree, &|t| deanonymize(t, &fields));
    let x = || Value::Text("x".to_string());
    assert_eq!(
        out,
        Term::Combined {
            left: Box::new(or(named("a", x()), named("b", x()))),
            right: Box::new(named("k", Value::Integer(1))),
            operator: Operator::And,
            grouping: true,
        }
    );
}
