//! The query AST (`Term`, `Value`, `Operator`, `Boundary`) together with the
//! pure rewrite passes that run between parsing and SQL composition.
//!
//! Every pass is a total function from one tree to a new tree; none of them
//! mutates in place. `deanonymize`, `rename` and `replace_expressions` act on
//! a single node and are meant to be applied to whole trees through the
//! generic `transform`, which recurses through `Combined` nodes and hands
//! every leaf to the visitor.

use vstd::prelude::*;

verus! {

/// Whether the two sides of a `Term::Combined` are joined by `AND` or `OR`.
#[derive(Clone, Copy, Debug, PartialEq, Eq, Structural)]
pub enum Operator {
    And,
    Or,
}

/// Whether a range endpoint is part of the range or lies just outside it.
#[derive(Clone, Copy, Debug, PartialEq, Eq, Structural)]
pub enum BoundaryKind {
    Inclusive,
    Exclusive,
}

/// One endpoint of a `Value::Range`.
#[derive(Clone, Copy, Debug, PartialEq, Eq, Structural)]
pub struct Boundary {
    pub value: i64,
    pub kind: BoundaryKind,
}

/// A literal appearing in a query: free text, an integer, a boolean, or an
/// integer range with independently inclusive/exclusive endpoints.
///
/// A range's boundaries are deliberately not validated for `start <= end`;
/// an out-of-order range simply renders to an always-false SQL predicate.
#[derive(Debug, PartialEq, Eq)]
pub enum Value {
    Text(String),
    Integer(i64),
    Boolean(bool),
    Range(Boundary, Boundary),
}

/// A node of the query AST.
#[derive(Debug, PartialEq, Eq)]
pub enum Term {
    /// A bare value with no field name, awaiting expansion against the
    /// default-field list.
    Default(Value),
    /// A field-qualified condition, `key:value`.
    Named { key: String, value: Value },
    /// A binary boolean combination; `grouping` records whether the source
    /// query wrapped this node in explicit parentheses.
    Combined { left: Box<Term>, right: Box<Term>, operator: Operator, grouping: bool },
    /// An opaque, pre-rendered raw SQL fragment substituted in by the
    /// expression-replacement pass; never re-entered by later passes.
    Expression(String),
}

/// A literal that an expression-substitution rule can match against:
/// exactly the value kinds that `replace_expressions` compares
/// (ranges are never matched).
#[derive(Debug, PartialEq, Eq)]
pub enum Literal {
    Text(String),
    Integer(i64),
    Boolean(bool),
}

/// A mapping from field name to an ordered list of
/// (literal value, raw SQL expression) pairs; for both levels the first
/// match wins.
pub type ExpressionRuleset = Vec<(String, Vec<(Literal, String)>)>;

/// The mathematical model of a `Value`: text is a sequence of characters.
pub enum ValueModel {
    Text(Seq<char>),
    Integer(i64),
    Boolean(bool),
    Range(Boundary, Boundary),
}

/// The mathematical model of a `Term`.
pub enum TermModel {
    Default(ValueModel),
    Named { key: Seq<char>, value: ValueModel },
    Combined { left: Box<TermModel>, right: Box<TermModel>, operator: Operator, grouping: bool },
    Expression(Seq<char>),
}

/// The mathematical model of a `Literal`.
pub enum LiteralModel {
    Text(Seq<char>),
    Integer(i64),
    Boolean(bool),
}

impl View for Value {
    type V = ValueModel;

    open spec fn view(&self) -> ValueModel {
        match self {
            Value::Text(s) => ValueModel::Text(s@),
            Value::Integer(n) => ValueModel::Integer(*n),
            Value::Boolean(b) => ValueModel::Boolean(*b),
            Value::Range(lo, hi) => ValueModel::Range(*lo, *hi),
        }
    }
}

impl DeepView for Value {
    type V = ValueModel;

    open spec fn deep_view(&self) -> ValueModel {
        self.view()
    }
}

impl View for Term {
    type V = TermModel;

    open spec fn view(&self) -> TermModel
        decreases self,
    {
        match self {
            Term::Default(v) => TermModel::Default(v@),
            Term::Named { key, value } => TermModel::Named { key: key@, value: value@ },
            Term::Combined { left, right, operator, grouping } => TermModel::Combined {
                left: Box::new((**left)@),
                right: Box::new((**right)@),
                operator: *operator,
                grouping: *grouping,
            },
            Term::Expression(e) => TermModel::Expression(e@),
        }
    }
}

impl DeepView for Term {
    type V = TermModel;

    open spec fn deep_view(&self) -> TermModel {
        self.view()
    }
}

impl View for Literal {
    type V = LiteralModel;

    open spec fn view(&self) -> LiteralModel {
        match self {
            Literal::Text(s) => LiteralModel::Text(s@),
            Literal::Integer(n) => LiteralModel::Integer(*n),
            Literal::Boolean(b) => LiteralModel::Boolean(*b),
        }
    }
}

impl DeepView for Literal {
    type V = LiteralModel;

    open spec fn deep_view(&self) -> LiteralModel {
        self.view()
    }
}

impl Clone for Value {
    fn clone(&self) -> (res: Self)
        ensures
            res == *self,
    {
        match self {
            Value::Text(s) => Value::Text(s.clone()),
            Value::Integer(n) => Value::Integer(*n),
            Value::Boolean(b) => Value::Boolean(*b),
            Value::Range(lo, hi) => Value::Range(*lo, *hi),
        }
    }
}

impl Clone for Literal {
    fn clone(&self) -> (res: Self)
        ensures
            res == *self,
    {
        match self {
            Literal::Text(s) => Literal::Text(s.clone()),
            Literal::Integer(n) => Literal::Integer(*n),
            Literal::Boolean(b) => Literal::Boolean(*b),
        }
    }
}

/// The left-associated `Or`-chain of `Named` terms that `deanonymize` builds
/// from a default value: one `Named` per default field, in list order.
pub open spec fn or_chain(fields: Seq<Seq<char>>, value: ValueModel) -> TermModel
    decreases fields.len(),
{
    if fields.len() <= 1 {
        TermModel::Named { key: fields[0], value }
    } else {
        TermModel::Combined {
            left: Box::new(or_chain(fields.drop_last(), value)),
            right: Box::new(TermModel::Named { key: fields.last(), value }),
            operator: Operator::Or,
            grouping: false,
        }
    }
}

/// What `deanonymize` does to a single node: a `Default` leaf becomes the
/// `Or`-chain over the default fields; every other node passes through.
pub open spec fn spec_deanonymize(t: TermModel, fields: Seq<Seq<char>>) -> TermModel {
    match t {
        TermModel::Default(v) => or_chain(fields, v),
        _ => t,
    }
}

/// Replaces a `Default` leaf with a left-associated `Or`-chain of `Named`
/// terms, one per default field, in list order; with a single default field
/// the result is exactly that `Named` term, with no wrapping `Combined`.
/// Non-`Default` nodes pass through unchanged.
///
/// Calling this with a `Default` leaf and an empty default-field list is a
/// configuration bug, not a user error; the precondition rules it out.
#[verifier::loop_isolation(false)]
pub fn deanonymize(tree: Term, default_fields: &Vec<String>) -> (res: Term)
    requires
        tree@ is Default ==> default_fields.len() >= 1,
    ensures
        res@ == spec_deanonymize(tree@, default_fields.deep_view()),
{
    match tree {
        Term::Default(value) => {
            let ghost fields = default_fields.deep_view();
            let ghost v = value@;
            let mut acc = Term::Named { key: default_fields[0].clone(), value: value.clone() };
            proof {
                assert(fields[0] == default_fields@[0].deep_view());
                assert(fields.take(1) =~= seq![fields[0]]);
                assert(acc@ == or_chain(fields.take(1), v));
            }
            let mut i: usize = 1;
            while i < default_fields.len()
                invariant
                    1 <= i <= default_fields.len(),
                    fields == default_fields.deep_view(),
                    value@ == v,
                    acc@ == or_chain(fields.take(i as int), v),
                decreases default_fields.len() - i,
            {
                let next = Term::Named { key: default_fields[i].clone(), value: value.clone() };
                proof {
                    assert(fields[i as int] == default_fields@[i as int].deep_view());
                    assert(next@ == TermModel::Named { key: fields[i as int], value: v });
                }
                acc = Term::Combined {
                    left: Box::new(acc),
                    right: Box::new(next),
                    operator: Operator::Or,
                    grouping: false,
                };
                proof {
                    let cur = fields.take(i + 1);
                    assert(cur.drop_last() =~= fields.take(i as int));
                    assert(cur.last() == fields[i as int]);
                    assert(cur.len() == i + 1 >= 2);
                    assert(or_chain(cur, v) == TermModel::Combined {
                        left: Box::new(or_chain(fields.take(i as int), v)),
                        right: Box::new(TermModel::Named { key: fields[i as int], value: v }),
                        operator: Operator::Or,
                        grouping: false,
                    });
                    assert(acc@ == or_chain(cur, v));
                }
                i += 1;
            }
            proof {
                assert(fields.take(default_fields.len() as int) =~= fields);
            }
            acc
        },
        _ => tree,
    }
}

/// The first right-hand side in `pairs`, from index `i` on, whose left-hand
/// side equals `key`.
pub open spec fn lookup_from(pairs: Seq<(Seq<char>, Seq<char>)>, i: int, key: Seq<char>) -> Option<
    Seq<char>,
>
    decreases pairs.len() - i,
{
    if i < 0 || i >= pairs.len() {
        None
    } else if pairs[i].0 == key {
        Some(pairs[i].1)
    } else {
        lookup_from(pairs, i + 1, key)
    }
}

/// What `rename` does to a single node: a `Named` leaf whose key appears in
/// the rename list gets the mapped name; everything else passes through.
pub open spec fn spec_rename(t: TermModel, renames: Seq<(Seq<char>, Seq<char>)>) -> TermModel {
    match t {
        TermModel::Named { key, value } => match lookup_from(renames, 0, key) {
            Some(new_key) => TermModel::Named { key: new_key, value },
            None => TermModel::Named { key, value },
        },
        _ => t,
    }
}

/// For a `Named` leaf whose key appears in `renames`, replaces the key with
/// the mapped name (first match wins); otherwise leaves the node unchanged.
/// `Default` and `Expression` leaves pass through unchanged.
#[verifier::loop_isolation(false)]
pub fn rename(tree: Term, renames: &Vec<(String, String)>) -> (res: Term)
    ensures
        res@ == spec_rename(tree@, renames.deep_view()),
{
    match tree {
        Term::Named { key, value } => {
            let ghost rv = renames.deep_view();
            let mut i: usize = 0;
            while i < renames.len()
                invariant
                    i <= renames.len(),
                    rv == renames.deep_view(),
                    lookup_from(rv, 0, key@) == lookup_from(rv, i as int, key@),
                decreases renames.len() - i,
            {
                proof {
                    assert(rv[i as int] == renames@[i as int].deep_view());
                }
                if renames[i].0 == key {
                    return Term::Named { key: renames[i].1.clone(), value };
                }
                i += 1;
            }
            Term::Named { key, value }
        },
        _ => tree,
    }
}

/// Whether an expression rule's literal exactly matches a query value:
/// integer to integer, boolean to boolean, or text to text.
/// Ranges never match.
pub open spec fn literal_matches(lit: LiteralModel, v: ValueModel) -> bool {
    match lit {
        LiteralModel::Integer(a) => v matches ValueModel::Integer(b) && a == b,
        LiteralModel::Boolean(a) => v matches ValueModel::Boolean(b) && a == b,
        LiteralModel::Text(a) => v matches ValueModel::Text(b) && a == b,
    }
}

/// The raw SQL of the first rule in `rules`, from index `i` on, whose
/// literal matches `v`.
pub open spec fn rules_lookup_from(
    rules: Seq<(LiteralModel, Seq<char>)>,
    i: int,
    v: ValueModel,
) -> Option<Seq<char>>
    decreases rules.len() - i,
{
    if i < 0 || i >= rules.len() {
        None
    } else if literal_matches(rules[i].0, v) {
        Some(rules[i].1)
    } else {
        rules_lookup_from(rules, i + 1, v)
    }
}

/// The rule list of the first ruleset entry, from index `i` on, whose field
/// name equals `key`.
pub open spec fn ruleset_lookup_from(
    ruleset: Seq<(Seq<char>, Seq<(LiteralModel, Seq<char>)>)>,
    i: int,
    key: Seq<char>,
) -> Option<Seq<(LiteralModel, Seq<char>)>>
    decreases ruleset.len() - i,
{
    if i < 0 || i >= ruleset.len() {
        None
    } else if ruleset[i].0 == key {
        Some(ruleset[i].1)
    } else {
        ruleset_lookup_from(ruleset, i + 1, key)
    }
}

/// The raw SQL that the ruleset substitutes for the condition `key:v`, if
/// `key` has a rule list and some rule literal in it matches `v`.
pub open spec fn spec_match_expression(
    ruleset: Seq<(Seq<char>, Seq<(LiteralModel, Seq<char>)>)>,
    key: Seq<char>,
    v: ValueModel,
) -> Option<Seq<char>> {
    match ruleset_lookup_from(ruleset, 0, key) {
        Some(rules) => rules_lookup_from(rules, 0, v),
        None => None,
    }
}

/// What `replace_expressions` does to a single node: a `Named` leaf matched
/// by the ruleset becomes the rule's raw `Expression`; everything else
/// passes through.
pub open spec fn spec_replace_expressions(
    t: TermModel,
    ruleset: Seq<(Seq<char>, Seq<(LiteralModel, Seq<char>)>)>,
) -> TermModel {
    match t {
        TermModel::Named { key, value } => match spec_match_expression(ruleset, key, value) {
            Some(sql) => TermModel::Expression(sql),
            None => TermModel::Named { key, value },
        },
        _ => t,
    }
}

/// The raw SQL of the first rule for `key` whose literal matches `value`,
/// scanning the rule list in order; `None` if `key` has no rules or no
/// literal matches.
#[verifier::loop_isolation(false)]
fn match_expression(ruleset: &ExpressionRuleset, key: &String, value: &Value) -> (res: Option<
    String,
>)
    ensures
        match spec_match_expression(ruleset.deep_view(), key@, value@) {
            Some(sql) => res matches Some(s) && s@ == sql,
            None => res is None,
        },
{
    let ghost rsv = ruleset.deep_view();
    let mut i: usize = 0;
    while i < ruleset.len()
        invariant
            i <= ruleset.len(),
            rsv == ruleset.deep_view(),
            ruleset_lookup_from(rsv, 0, key@) == ruleset_lookup_from(rsv, i as int, key@),
        decreases ruleset.len() - i,
    {
        proof {
            assert(rsv[i as int] == ruleset@[i as int].deep_view());
        }
        if ruleset[i].0 == *key {
            let rules = &ruleset[i].1;
            let ghost rlv = rsv[i as int].1;
            assert(rlv == rules.deep_view());
            let mut j: usize = 0;
            while j < rules.len()
                invariant
                    j <= rules.len(),
                    rlv == rules.deep_view(),
                    ruleset_lookup_from(rsv, 0, key@) == Some(rlv),
                    rules_lookup_from(rlv, 0, value@) == rules_lookup_from(rlv, j as int, value@),
                decreases rules.len() - j,
            {
                proof {
                    assert(rlv[j as int] == rules@[j as int].deep_view());
                }
                let found = match (&rules[j].0, value) {
                    (Literal::Integer(a), Value::Integer(b)) => *a == *b,
                    (Literal::Boolean(a), Value::Boolean(b)) => *a == *b,
                    (Literal::Text(a), Value::Text(b)) => *a == *b,
                    _ => false,
                };
                if found {
                    return Some(rules[j].1.clone());
                }
                j += 1;
            }
            return None;
        }
        i += 1;
    }
    None
}

/// For a `Named` leaf, looks its key up in the ruleset and replaces the
/// whole leaf with the first matching rule's raw `Expression`; on no match,
/// or for any other node, the tree passes through unchanged.
pub fn replace_expressions(tree: Term, ruleset: &ExpressionRuleset) -> (res: Term)
    ensures
        res@ == spec_replace_expressions(tree@, ruleset.deep_view()),
{
    match tree {
        Term::Named { key, value } => match match_expression(ruleset, &key, &value) {
            Some(sql) => Term::Expression(sql),
            None => Term::Named { key, value },
        },
        _ => tree,
    }
}

/// How the result of `transform` relates to its input: `Combined` nodes keep
/// their operator and grouping and relate child-wise, and every leaf is a
/// possible output of the visitor on the corresponding input leaf.
pub open spec fn transform_rel<F: Fn(Term) -> Term>(a: Term, b: Term, visitor: F) -> bool
    decreases a,
{
    match a {
        Term::Combined { left, right, operator, grouping } => match b {
            Term::Combined { left: bl, right: br, operator: bo, grouping: bg } => {
                &&& bo == operator
                &&& bg == grouping
                &&& transform_rel(*left, *bl, visitor)
                &&& transform_rel(*right, *br, visitor)
            },
            _ => false,
        },
        _ => call_ensures(visitor, (a,), b),
    }
}

/// Depth-first structural rewrite: recurses through `Combined` nodes,
/// leaving their operator and grouping untouched, and applies `visitor` to
/// every other node (`Default`, `Named`, `Expression`).
pub fn transform<F: Fn(Term) -> Term>(tree: Term, visitor: &F) -> (res: Term)
    requires
        forall|t: Term| call_requires(*visitor, (t,)),
    ensures
        transform_rel(tree, res, *visitor),
    decreases tree,
{
    match tree {
        Term::Combined { left, right, operator, grouping } => Term::Combined {
            left: Box::new(transform(*left, visitor)),
            right: Box::new(transform(*right, visitor)),
            operator,
            grouping,
        },
        _ => visitor(tree),
    }
}

} // verus!
