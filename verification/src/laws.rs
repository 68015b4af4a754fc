//! Laws of the library that relate several functions, stated and proved
//! once and for all inputs: whitelist enforcement and parameter uniqueness
//! in the composer, and the parse of a field-qualified integer literal.

use crate::ast::{Operator, TermModel, ValueModel};
use crate::compose::{
    composable, decimal_of, digit_char, param_count, placeholder, spec_parts, spec_render_from,
    spec_to_sql, PartModel,
};
use crate::parser::{
    digit_val, is_digit_char, is_space_char, is_term_char, skip_space, spec_boolean, spec_default,
    spec_expr, spec_expr_tail, spec_int_tail, spec_integer, spec_operator, spec_partial_expr,
    spec_query, spec_single_term, spec_term, spec_value, term_run_end, Step,
};
use vstd::prelude::*;

verus! {

/// Whether some `Named` leaf of the tree carries a key outside `fields`.
pub open spec fn has_disallowed(t: TermModel, fields: Seq<Seq<char>>) -> bool
    decreases t,
{
    match t {
        TermModel::Named { key, value } => !fields.contains(key),
        TermModel::Combined { left, right, operator, grouping } => has_disallowed(*left, fields)
            || has_disallowed(*right, fields),
        _ => false,
    }
}

/// Law: with a whitelist, composition fails exactly when some `Named` leaf
/// carries a key outside it.
pub proof fn lemma_whitelist_enforcement(t: TermModel, fields: Seq<Seq<char>>)
    requires
        composable(t),
    ensures
        spec_parts(t, Some(fields)) is Err <==> has_disallowed(t, fields),
    decreases t,
{
    match t {
        TermModel::Combined { left, right, operator, grouping } => {
            lemma_whitelist_enforcement(*left, fields);
            lemma_whitelist_enforcement(*right, fields);
        },
        _ => {},
    }
}

/// Law: without a whitelist, composition of a composable tree always
/// succeeds.
pub proof fn lemma_no_whitelist_succeeds(t: TermModel)
    requires
        composable(t),
    ensures
        spec_parts(t, None) is Ok,
    decreases t,
{
    match t {
        TermModel::Combined { left, right, operator, grouping } => {
            lemma_no_whitelist_succeeds(*left);
            lemma_no_whitelist_succeeds(*right);
        },
        _ => {},
    }
}

/// The number of parameter parts in a part list.
pub open spec fn parts_param_count(parts: Seq<PartModel>) -> nat
    decreases parts.len(),
{
    if parts.len() == 0 {
        0
    } else {
        (match parts[0] {
            PartModel::Parameter(v) => 1 as nat,
            PartModel::Sql(s) => 0 as nat,
        }) + parts_param_count(parts.drop_first())
    }
}

proof fn lemma_count_singleton(x: PartModel)
    ensures
        parts_param_count(seq![x]) == (match x {
            PartModel::Parameter(v) => 1 as nat,
            PartModel::Sql(sql) => 0 as nat,
        }),
{
    assert(seq![x].drop_first() =~= Seq::<PartModel>::empty());
    assert(parts_param_count(Seq::<PartModel>::empty()) == 0);
}

proof fn lemma_parts_param_count_concat(a: Seq<PartModel>, b: Seq<PartModel>)
    ensures
        parts_param_count(a + b) == parts_param_count(a) + parts_param_count(b),
    decreases a.len(),
{
    if a.len() == 0 {
        assert(a + b =~= b);
    } else {
        assert((a + b).drop_first() =~= a.drop_first() + b);
        lemma_parts_param_count_concat(a.drop_first(), b);
    }
}

proof fn lemma_parts_count(t: TermModel, allowed: Option<Seq<Seq<char>>>)
    requires
        composable(t),
        spec_parts(t, allowed) is Ok,
    ensures
        parts_param_count(spec_parts(t, allowed)->Ok_0) == param_count(t),
    decreases t,
{
    match t {
        TermModel::Combined { left, right, operator, grouping } => {
            lemma_parts_count(*left, allowed);
            lemma_parts_count(*right, allowed);
            let lp = spec_parts(*left, allowed)->Ok_0;
            let rp = spec_parts(*right, allowed)->Ok_0;
            let open_part = if grouping {
                seq![PartModel::Sql("("@)]
            } else {
                Seq::<PartModel>::empty()
            };
            let close_part = if grouping {
                seq![PartModel::Sql(")"@)]
            } else {
                Seq::<PartModel>::empty()
            };
            let mid = seq![PartModel::Sql(crate::compose::op_text(operator))];
            lemma_parts_param_count_concat(open_part + lp + mid + rp, close_part);
            lemma_parts_param_count_concat(open_part + lp + mid, rp);
            lemma_parts_param_count_concat(open_part + lp, mid);
            lemma_parts_param_count_concat(open_part, lp);
            assert(spec_parts(t, allowed)->Ok_0 == open_part + lp + mid + rp + close_part);
            if grouping {
                lemma_count_singleton(PartModel::Sql("("@));
                lemma_count_singleton(PartModel::Sql(")"@));
            } else {
                assert(parts_param_count(open_part) == 0);
                assert(parts_param_count(close_part) == 0);
            }
            lemma_count_singleton(PartModel::Sql(crate::compose::op_text(operator)));
            assert(parts_param_count(open_part + lp) == parts_param_count(lp));
            assert(parts_param_count(open_part + lp + mid) == parts_param_count(lp));
            assert(parts_param_count(open_part + lp + mid + rp) == parts_param_count(lp)
                + parts_param_count(rp));
            assert(parts_param_count(open_part + lp + mid + rp + close_part) == parts_param_count(
                lp,
            ) + parts_param_count(rp));
            assert(param_count(t) == param_count(*left) + param_count(*right));
        },
        TermModel::Named { key, value } => {
            let parts = spec_parts(t, allowed)->Ok_0;
            let p1 = parts.drop_first();
            let p2 = p1.drop_first();
            match value {
                ValueModel::Range(lo, hi) => {
                    let p3 = p2.drop_first();
                    let p4 = p3.drop_first();
                    let p5 = p4.drop_first();
                    assert(p1[0] == parts[1] && p2[0] == parts[2] && p3[0] == parts[3] && p4[0]
                        == parts[4]);
                    assert(p5 =~= Seq::<PartModel>::empty());
                    assert(parts_param_count(p5) == 0);
                    assert(parts_param_count(p4) == 0);
                    assert(parts_param_count(p3) == 1);
                    assert(parts_param_count(p2) == 1);
                    assert(parts_param_count(p1) == 2);
                    assert(parts_param_count(parts) == 2);
                },
                ValueModel::Text(tx) => {
                    let p3 = p2.drop_first();
                    assert(p1[0] == parts[1] && p2[0] == parts[2]);
                    assert(p3 =~= Seq::<PartModel>::empty());
                    assert(parts_param_count(p3) == 0);
                    assert(parts_param_count(p2) == 0);
                    assert(parts_param_count(p1) == 1);
                    assert(parts_param_count(parts) == 1);
                },
                _ => {
                    assert(p1[0] == parts[1]);
                    assert(p2 =~= Seq::<PartModel>::empty());
                    assert(parts_param_count(p2) == 0);
                    assert(parts_param_count(p1) == 1);
                    assert(parts_param_count(parts) == 1);
                },
            }
        },
        TermModel::Expression(e) => {
            let parts = spec_parts(t, allowed)->Ok_0;
            assert(parts.drop_first() =~= Seq::<PartModel>::empty());
            assert(parts_param_count(parts.drop_first()) == 0);
        },
        TermModel::Default(v) => {
            assert(spec_parts(t, allowed) is Err);
        },
    }
}

proof fn lemma_render_params(parts: Seq<PartModel>, i: int, n: nat)
    requires
        0 <= i <= parts.len(),
    ensures
        spec_render_from(parts, i, n).1.len() == parts_param_count(parts.skip(i)),
        forall|j: int|
            0 <= j < spec_render_from(parts, i, n).1.len() ==> spec_render_from(parts, i, n).1[j].0
                == placeholder((n + j) as nat),
    decreases parts.len() - i,
{
    if i == parts.len() {
        assert(parts.skip(i) =~= Seq::<PartModel>::empty());
    } else {
        assert(parts.skip(i).drop_first() =~= parts.skip(i + 1));
        assert(parts.skip(i)[0] == parts[i]);
        match parts[i] {
            PartModel::Sql(sql) => {
                lemma_render_params(parts, i + 1, n);
            },
            PartModel::Parameter(v) => {
                lemma_render_params(parts, i + 1, n + 1);
                let ps = spec_render_from(parts, i, n).1;
                let rest = spec_render_from(parts, i + 1, (n + 1) as nat).1;
                assert forall|j: int| 0 <= j < ps.len() implies ps[j].0 == placeholder(
                    (n + j) as nat,
                ) by {
                    if j == 0 {
                    } else {
                        assert(ps[j] == rest[j - 1]);
                    }
                }
            },
        }
    }
}

proof fn lemma_decimal_len(n: nat)
    ensures
        decimal_of(n).len() >= 1,
    decreases n,
{
    if n >= 10 {
        lemma_decimal_len(n / 10);
    }
}

proof fn lemma_decimal_injective(a: nat, b: nat)
    requires
        decimal_of(a) == decimal_of(b),
    ensures
        a == b,
    decreases a,
{
    lemma_decimal_len(a / 10);
    lemma_decimal_len(b / 10);
    if a < 10 && b < 10 {
        assert(decimal_of(a) =~= seq![digit_char(a as int)]);
        assert(decimal_of(b) =~= seq![digit_char(b as int)]);
        assert(seq![digit_char(a as int)][0] == seq![digit_char(b as int)][0]);
        assert(digit_char(a as int) == digit_char(b as int));
    } else if a < 10 && b >= 10 {
        assert(decimal_of(b).len() >= 2);
    } else if a >= 10 && b < 10 {
        assert(decimal_of(a).len() >= 2);
    } else {
        let da = decimal_of(a / 10);
        let db = decimal_of(b / 10);
        assert(da.push(digit_char((a % 10) as int)) == db.push(digit_char((b % 10) as int)));
        assert(da =~= da.push(digit_char((a % 10) as int)).drop_last());
        assert(db =~= db.push(digit_char((b % 10) as int)).drop_last());
        assert(da == db);
        lemma_decimal_injective(a / 10, b / 10);
        assert(da.push(digit_char((a % 10) as int)).last() == digit_char((a % 10) as int));
        assert(db.push(digit_char((b % 10) as int)).last() == digit_char((b % 10) as int));
        assert(digit_char((a % 10) as int) == digit_char((b % 10) as int));
        assert(a % 10 == b % 10);
        assert(a == 10 * (a / 10) + a % 10);
        assert(b == 10 * (b / 10) + b % 10);
    }
}

proof fn lemma_placeholder_injective(a: nat, b: nat)
    requires
        placeholder(a) == placeholder(b),
    ensures
        a == b,
{
    reveal_strlit(":v");
    let pa = placeholder(a);
    let pb = placeholder(b);
    assert(decimal_of(a) =~= pa.skip(2));
    assert(decimal_of(b) =~= pb.skip(2));
    lemma_decimal_injective(a, b);
}

/// Law: across a composable tree with `param_count(t)` literal-bearing
/// slots (ranges counting twice), a successful composition binds exactly
/// that many named parameters, and their placeholders `:v0`, `:v1`, ... are
/// pairwise distinct, so each name appears exactly once in the mapping.
pub proof fn lemma_parameter_uniqueness(
    t: TermModel,
    table: Seq<char>,
    allowed: Option<Seq<Seq<char>>>,
)
    requires
        composable(t),
        spec_to_sql(t, table, allowed) is Ok,
    ensures
        spec_to_sql(t, table, allowed)->Ok_0.named_params.len() == param_count(t),
        forall|j: int, k: int|
            0 <= j < k < spec_to_sql(t, table, allowed)->Ok_0.named_params.len()
                ==> spec_to_sql(t, table, allowed)->Ok_0.named_params[j].0 != spec_to_sql(
                t,
                table,
                allowed,
            )->Ok_0.named_params[k].0,
{
    let parts = spec_parts(t, allowed)->Ok_0;
    lemma_parts_count(t, allowed);
    lemma_render_params(parts, 0, 0);
    assert(parts.skip(0) =~= parts);
    let ps = spec_render_from(parts, 0, 0).1;
    assert forall|j: int, k: int| 0 <= j < k < ps.len() implies ps[j].0 != ps[k].0 by {
        assert(ps[j].0 == placeholder(j as nat));
        assert(ps[k].0 == placeholder(k as nat));
        if ps[j].0 == ps[k].0 {
            lemma_placeholder_injective(j as nat, k as nat);
        }
    }
}


/// The value of reading the digit characters of `ds`, left to right, into
/// an accumulator that starts at `acc`.
pub open spec fn digits_value(acc: int, ds: Seq<char>) -> int
    decreases ds.len(),
{
    if ds.len() == 0 {
        acc
    } else {
        digits_value(10 * acc + digit_val(ds[0]), ds.drop_first())
    }
}

proof fn lemma_digits_value_grows(acc: int, ds: Seq<char>)
    requires
        0 <= acc,
        forall|i: int| 0 <= i < ds.len() ==> is_digit_char(ds[i]),
    ensures
        acc <= digits_value(acc, ds),
    decreases ds.len(),
{
    if ds.len() > 0 {
        assert(is_digit_char(ds[0]));
        assert(0 <= digit_val(ds[0]) <= 9);
        assert forall|i: int| 0 <= i < ds.drop_first().len() implies is_digit_char(
            ds.drop_first()[i],
        ) by {
            assert(ds.drop_first()[i] == ds[i + 1]);
        }
        lemma_digits_value_grows(10 * acc + digit_val(ds[0]), ds.drop_first());
    }
}

proof fn lemma_digits_value_push(acc: int, ds: Seq<char>, c: char)
    ensures
        digits_value(acc, ds.push(c)) == 10 * digits_value(acc, ds) + digit_val(c),
    decreases ds.len(),
{
    if ds.len() == 0 {
        assert(ds.push(c) =~= seq![c]);
        assert(seq![c].drop_first() =~= Seq::<char>::empty());
        assert(ds =~= Seq::<char>::empty());
        assert(digits_value(10 * acc + digit_val(c), Seq::<char>::empty()) == 10 * acc + digit_val(
            c,
        ));
        assert(digits_value(acc, Seq::<char>::empty()) == acc);
    } else {
        assert(ds.push(c).drop_first() =~= ds.drop_first().push(c));
        assert(ds.push(c)[0] == ds[0]);
        lemma_digits_value_push(10 * acc + digit_val(ds[0]), ds.drop_first(), c);
    }
}

proof fn lemma_decimal_digits(n: nat)
    ensures
        forall|i: int| 0 <= i < decimal_of(n).len() ==> is_digit_char(decimal_of(n)[i]),
    decreases n,
{
    assert forall|d: int| 0 <= d <= 9 implies is_digit_char(digit_char(d)) by {}
    if n < 10 {
        assert(decimal_of(n) =~= seq![digit_char(n as int)]);
    } else {
        lemma_decimal_digits(n / 10);
        let prefix = decimal_of(n / 10);
        let c = digit_char((n % 10) as int);
        assert forall|i: int| 0 <= i < decimal_of(n).len() implies is_digit_char(
            decimal_of(n)[i],
        ) by {
            if i < prefix.len() {
                assert(decimal_of(n)[i] == prefix[i]);
            } else {
                assert(decimal_of(n)[i] == c);
            }
        }
    }
}

proof fn lemma_decimal_value(n: nat)
    ensures
        digits_value(0, decimal_of(n)) == n,
    decreases n,
{
    assert forall|d: int| 0 <= d <= 9 implies digit_val(digit_char(d)) == d by {}
    if n < 10 {
        assert(decimal_of(n) =~= seq![digit_char(n as int)]);
        assert(seq![digit_char(n as int)].drop_first() =~= Seq::<char>::empty());
        assert(digits_value(digit_val(digit_char(n as int)), Seq::<char>::empty()) == digit_val(
            digit_char(n as int),
        ));
    } else {
        lemma_decimal_value(n / 10);
        lemma_digits_value_push(0, decimal_of(n / 10), digit_char((n % 10) as int));
        assert(n == 10 * (n / 10) + n % 10);
    }
}

proof fn lemma_int_tail_digits(s: Seq<char>, p: int, e: int, acc: i64)
    requires
        0 <= p <= e <= s.len(),
        forall|i: int| p <= i < e ==> is_digit_char(s[i]),
        e == s.len() || !is_digit_char(s[e]),
        0 <= acc,
        digits_value(acc as int, s.subrange(p, e)) <= i64::MAX,
    ensures
        spec_int_tail(s, p, acc) == Step::<i64>::Hit(
            digits_value(acc as int, s.subrange(p, e)) as i64,
            e,
        ),
    decreases e - p,
{
    let ds = s.subrange(p, e);
    if p == e {
        assert(ds =~= Seq::<char>::empty());
        assert(digits_value(acc as int, ds) == acc);
    } else {
        assert(ds[0] == s[p]);
        assert(is_digit_char(s[p]));
        let d = digit_val(s[p]);
        assert(0 <= d <= 9);
        assert(ds.drop_first() =~= s.subrange(p + 1, e));
        assert forall|i: int| 0 <= i < ds.drop_first().len() implies is_digit_char(
            ds.drop_first()[i],
        ) by {
            assert(ds.drop_first()[i] == s[p + 1 + i]);
        }
        lemma_digits_value_grows(10 * (acc as int) + d, ds.drop_first());
        assert(10 * (acc as int) + d <= i64::MAX);
        assert(acc <= (i64::MAX - d) / 10) by (nonlinear_arith)
            requires
                10 * (acc as int) + d <= i64::MAX,
                0 <= d <= 9,
                0 <= acc,
        ;
        lemma_int_tail_digits(s, p + 1, e, (10 * acc + d) as i64);
    }
}

/// Law: for every non-negative 64-bit integer `n`, parsing `f:` followed by
/// the decimal rendering of `n` yields exactly
/// `Named { key: "f", value: Integer(n) }`. (Negative integers are outside
/// the grammar: an integer literal has no sign.)
pub proof fn lemma_parse_integer_literal(n: i64)
    requires
        0 <= n,
    ensures
        spec_query("f:"@ + decimal_of(n as nat)) == Ok::<TermModel, int>(
            TermModel::Named { key: "f"@, value: ValueModel::Integer(n) },
        ),
{
    reveal_strlit("f:");
    reveal_strlit("f");
    let ds = decimal_of(n as nat);
    let s = "f:"@ + ds;
    let len = s.len() as int;
    lemma_decimal_digits(n as nat);
    lemma_decimal_len(n as nat);
    lemma_decimal_value(n as nat);
    assert(s.len() == 2 + ds.len());
    assert(s[0] == 'f' && s[1] == ':');
    assert forall|i: int| 2 <= i < len implies is_digit_char(s[i]) by {
        assert(s[i] == ds[i - 2]);
    }

    assert(!is_space_char('f'));
    assert(skip_space(s, 0) == 0);

    assert(is_term_char('f'));
    assert(!is_term_char(':'));
    assert(term_run_end(s, 1) == 1);
    assert(term_run_end(s, 0) == 1);
    assert(s.subrange(0, 1) =~= "f"@);
    assert(spec_single_term(s, 0) == Step::<Seq<char>>::Hit("f"@, 1));

    assert(is_digit_char(s[2]));
    assert(s[2] != '[' && s[2] != '{' && s[2] != 't' && s[2] != 'f' && s[2] != '"');
    assert(spec_boolean(s, 2) is Miss);
    assert(s.subrange(2, len) =~= ds);
    lemma_int_tail_digits(s, 2, len, 0);
    assert(spec_int_tail(s, 2, 0) == Step::<i64>::Hit(n, len));
    assert(spec_integer(s, 2) == Step::<i64>::Hit(n, len));
    assert(spec_value(s, 2) == Step::<ValueModel>::Hit(ValueModel::Integer(n), len));

    let t = TermModel::Named { key: "f"@, value: ValueModel::Integer(n) };
    assert(spec_term(s, 0) == Step::<TermModel>::Hit(t, len));
    assert(s[0] != '(');
    assert(spec_partial_expr(s, 0) == Step::<TermModel>::Hit(t, len));

    assert(skip_space(s, len) == len);
    assert(spec_operator(s, len) == (Operator::Or, len));
    assert(spec_single_term(s, len) is Miss);
    assert(spec_boolean(s, len) is Miss);
    assert(spec_integer(s, len) is Miss);
    assert(spec_value(s, len) is Miss);
    assert(spec_default(s, len) is Miss);
    assert(spec_term(s, len) is Miss);
    assert(spec_partial_expr(s, len) is Miss);
    assert(spec_expr_tail(s, len, t) == Step::<TermModel>::Hit(t, len));
    assert(spec_expr(s, 0) == Step::<TermModel>::Hit(t, len));
    assert(spec_query(s) == Ok::<TermModel, int>(t));
}

} // verus!
