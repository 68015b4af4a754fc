//! The SQL composer: walks a rewritten `Term` tree and emits a
//! parameterized `SELECT` statement plus the mapping of named parameters to
//! their literal values, enforcing an optional field whitelist.
//!
//! Every literal value becomes a fresh named parameter `:v0`, `:v1`, ...
//! (monotonically increasing across the whole traversal, never reused);
//! no user-typed text is ever interpolated into the SQL body. The table
//! name and `Expression` fragments are trusted operator-supplied input and
//! are emitted verbatim.

use crate::ast::{BoundaryKind, Literal, LiteralModel, Operator, Term, TermModel, Value, ValueModel};
use crate::parser::push_char;
use vstd::prelude::*;
use vstd::string::StringExecFns;

verus! {

/// One piece of the rendered WHERE clause: either literal SQL text or a
/// literal value that must be bound as a named parameter.
#[derive(Debug, PartialEq, Eq)]
pub enum Part {
    Sql(String),
    Parameter(Literal),
}

/// The mathematical model of a `Part`.
pub enum PartModel {
    Sql(Seq<char>),
    Parameter(LiteralModel),
}

impl View for Part {
    type V = PartModel;

    open spec fn view(&self) -> PartModel {
        match self {
            Part::Sql(s) => PartModel::Sql(s@),
            Part::Parameter(v) => PartModel::Parameter(v@),
        }
    }
}

impl DeepView for Part {
    type V = PartModel;

    open spec fn deep_view(&self) -> PartModel {
        self.view()
    }
}

/// A finished query: the SQL text and the mapping from parameter
/// placeholder (`:v0`, `:v1`, ...) to the literal value bound to it.
#[derive(Debug, PartialEq, Eq)]
pub struct Query {
    pub body: String,
    pub named_params: Vec<(String, Literal)>,
}

/// The mathematical model of a `Query`.
pub struct QueryModel {
    pub body: Seq<char>,
    pub named_params: Seq<(Seq<char>, LiteralModel)>,
}

impl View for Query {
    type V = QueryModel;

    open spec fn view(&self) -> QueryModel {
        QueryModel { body: self.body@, named_params: self.named_params.deep_view() }
    }
}

/// Whether a tree may be handed to the composer: every leaf is `Named` or
/// `Expression`. A `Default` leaf this late means the deanonymization pass
/// was skipped, which is a caller bug, not a user error.
pub open spec fn composable(t: TermModel) -> bool
    decreases t,
{
    match t {
        TermModel::Default(_) => false,
        TermModel::Combined { left, right, operator, grouping } => composable(*left) && composable(
            *right,
        ),
        _ => true,
    }
}

/// Whether every leaf of the tree is `Named` or `Expression`, so that the
/// tree may be handed to `to_sql`; callers that cannot guarantee it (for
/// instance because no deanonymization ran) must test it first.
pub fn is_composable(tree: &Term) -> (r: bool)
    ensures
        r == composable(tree@),
    decreases tree,
{
    match tree {
        Term::Default(_) => false,
        Term::Combined { left, right, operator, grouping } => {
            let l = is_composable(left);
            l && is_composable(right)
        },
        _ => true,
    }
}

/// How many named parameters a tree's conditions bind: one per integer,
/// boolean or text `Named` leaf, two per range, none for an `Expression`.
pub open spec fn param_count(t: TermModel) -> nat
    decreases t,
{
    match t {
        TermModel::Named { key, value } => match value {
            ValueModel::Range(lo, hi) => 2,
            _ => 1,
        },
        TermModel::Combined { left, right, operator, grouping } => param_count(*left)
            + param_count(*right),
        _ => 0,
    }
}

pub open spec fn op_text(op: Operator) -> Seq<char> {
    match op {
        Operator::And => " AND "@,
        Operator::Or => " OR "@,
    }
}

pub open spec fn start_op(k: BoundaryKind) -> Seq<char> {
    match k {
        BoundaryKind::Inclusive => ">="@,
        BoundaryKind::Exclusive => ">"@,
    }
}

pub open spec fn end_op(k: BoundaryKind) -> Seq<char> {
    match k {
        BoundaryKind::Inclusive => "<="@,
        BoundaryKind::Exclusive => "<"@,
    }
}

/// The parts a single `key:value` condition renders to: integers and
/// booleans as `` `key` = param ``, text as a substring `LIKE` match, and a
/// range as a parenthesized conjunction of its two boundary comparisons
/// (two parameters).
pub open spec fn spec_condition(key: Seq<char>, v: ValueModel) -> Seq<PartModel> {
    match v {
        ValueModel::Integer(n) => seq![
            PartModel::Sql("`"@ + key + "` = "@),
            PartModel::Parameter(LiteralModel::Integer(n)),
        ],
        ValueModel::Boolean(b) => seq![
            PartModel::Sql("`"@ + key + "` = "@),
            PartModel::Parameter(LiteralModel::Boolean(b)),
        ],
        ValueModel::Text(t) => seq![
            PartModel::Sql("`"@ + key + "` LIKE CONCAT('%', "@),
            PartModel::Parameter(LiteralModel::Text(t)),
            PartModel::Sql(", '%')"@),
        ],
        ValueModel::Range(lo, hi) => seq![
            PartModel::Sql("(`"@ + key + "` "@ + start_op(lo.kind) + " "@),
            PartModel::Parameter(LiteralModel::Integer(lo.value)),
            PartModel::Sql(" AND `"@ + key + "` "@ + end_op(hi.kind) + " "@),
            PartModel::Parameter(LiteralModel::Integer(hi.value)),
            PartModel::Sql(")"@),
        ],
    }
}

/// The parts the whole tree reduces to, or the offending field name(s) if a
/// `Named` key is missing from the whitelist: a failing branch propagates
/// its field name, and two failing branches join theirs with a comma.
/// `Combined` renders its sides joined by the operator, parenthesized
/// exactly when `grouping` is set.
pub open spec fn spec_parts(t: TermModel, allowed: Option<Seq<Seq<char>>>) -> Result<
    Seq<PartModel>,
    Seq<char>,
>
    decreases t,
{
    match t {
        TermModel::Expression(e) => Ok(seq![PartModel::Sql(e)]),
        TermModel::Named { key, value } => {
            let whitelisted = match allowed {
                Some(fields) => fields.contains(key),
                None => true,
            };
            if whitelisted {
                Ok(spec_condition(key, value))
            } else {
                Err(key)
            }
        },
        TermModel::Combined { left, right, operator, grouping } => {
            match (spec_parts(*left, allowed), spec_parts(*right, allowed)) {
                (Ok(lp), Ok(rp)) => {
                    let open_part = if grouping {
                        seq![PartModel::Sql("("@)]
                    } else {
                        Seq::<PartModel>::empty()
                    };
                    let close_part = if grouping {
                        seq![PartModel::Sql(")"@)]
                    } else {
                        Seq::<PartModel>::empty()
                    };
                    Ok(open_part + lp + seq![PartModel::Sql(op_text(operator))] + rp + close_part)
                },
                (Err(a), Ok(rp)) => Err(a),
                (Ok(lp), Err(b)) => Err(b),
                (Err(a), Err(b)) => Err(a + ", "@ + b),
            }
        },
        TermModel::Default(v) => Err(Seq::empty()),
    }
}

pub open spec fn digit_char(d: int) -> char {
    if d == 0 {
        '0'
    } else if d == 1 {
        '1'
    } else if d == 2 {
        '2'
    } else if d == 3 {
        '3'
    } else if d == 4 {
        '4'
    } else if d == 5 {
        '5'
    } else if d == 6 {
        '6'
    } else if d == 7 {
        '7'
    } else if d == 8 {
        '8'
    } else {
        '9'
    }
}

/// The canonical decimal rendering of `n`, most significant digit first.
pub open spec fn decimal_of(n: nat) -> Seq<char>
    decreases n,
{
    if n < 10 {
        seq![digit_char(n as int)]
    } else {
        decimal_of(n / 10).push(digit_char((n % 10) as int))
    }
}

/// The placeholder of the `n`-th parameter registered by the composer.
pub open spec fn placeholder(n: nat) -> Seq<char> {
    ":v"@ + decimal_of(n)
}

/// The condition text and parameter mapping obtained from `parts[i..]` when
/// `n` parameters were already registered: SQL parts pass through, and each
/// parameter part becomes the placeholder of the next free index, both in
/// the text and in the mapping.
pub open spec fn spec_render_from(parts: Seq<PartModel>, i: int, n: nat) -> (
    Seq<char>,
    Seq<(Seq<char>, LiteralModel)>,
)
    decreases parts.len() - i,
{
    if i < 0 || i >= parts.len() {
        (Seq::empty(), Seq::empty())
    } else {
        match parts[i] {
            PartModel::Sql(sql) => {
                let rest = spec_render_from(parts, i + 1, n);
                (sql + rest.0, rest.1)
            },
            PartModel::Parameter(v) => {
                let rest = spec_render_from(parts, i + 1, n + 1);
                (placeholder(n) + rest.0, seq![(placeholder(n), v)] + rest.1)
            },
        }
    }
}

/// The backtick-quoted, comma-joined field list from index `i` on.
pub open spec fn join_fields(fields: Seq<Seq<char>>, i: int) -> Seq<char>
    decreases fields.len() - i,
{
    if i < 0 || i >= fields.len() {
        Seq::empty()
    } else if i + 1 < fields.len() {
        "`"@ + fields[i] + "`, "@ + join_fields(fields, i + 1)
    } else {
        "`"@ + fields[i] + "`"@
    }
}

/// The projection: `*` without a whitelist, else the quoted whitelist
/// fields in list order.
pub open spec fn spec_projection(allowed: Option<Seq<Seq<char>>>) -> Seq<char> {
    match allowed {
        None => "*"@,
        Some(fields) => join_fields(fields, 0),
    }
}

/// The full statement `to_sql` produces: the rendered parts wrapped in
/// `SELECT {projection} FROM `{table}` WHERE {condition};`, or the failing
/// field name(s).
pub open spec fn spec_to_sql(
    t: TermModel,
    table: Seq<char>,
    allowed: Option<Seq<Seq<char>>>,
) -> Result<QueryModel, Seq<char>> {
    match spec_parts(t, allowed) {
        Err(e) => Err(e),
        Ok(parts) => {
            let rendered = spec_render_from(parts, 0, 0);
            Ok(
                QueryModel {
                    body: "SELECT "@ + spec_projection(allowed) + " FROM `"@ + table + "` WHERE "@
                        + rendered.0 + ";"@,
                    named_params: rendered.1,
                },
            )
        },
    }
}

fn start_op_str(k: BoundaryKind) -> (r: &'static str)
    ensures
        r@ == start_op(k),
{
    match k {
        BoundaryKind::Inclusive => ">=",
        BoundaryKind::Exclusive => ">",
    }
}

fn end_op_str(k: BoundaryKind) -> (r: &'static str)
    ensures
        r@ == end_op(k),
{
    match k {
        BoundaryKind::Inclusive => "<=",
        BoundaryKind::Exclusive => "<",
    }
}

fn op_string(op: Operator) -> (r: String)
    ensures
        r@ == op_text(op),
{
    match op {
        Operator::And => String::from_str(" AND "),
        Operator::Or => String::from_str(" OR "),
    }
}

fn digit_char_of(d: usize) -> (c: char)
    requires
        d <= 9,
    ensures
        c == digit_char(d as int),
{
    match d {
        0 => '0',
        1 => '1',
        2 => '2',
        3 => '3',
        4 => '4',
        5 => '5',
        6 => '6',
        7 => '7',
        8 => '8',
        _ => '9',
    }
}

fn decimal_string(n: usize) -> (r: String)
    ensures
        r@ == decimal_of(n as nat),
    decreases n,
{
    if n < 10 {
        let mut out = String::new();
        push_char(&mut out, digit_char_of(n));
        proof {
            assert(out@ =~= seq![digit_char(n as int)]);
        }
        out
    } else {
        let mut out = decimal_string(n / 10);
        push_char(&mut out, digit_char_of(n % 10));
        out
    }
}

fn placeholder_string(n: usize) -> (r: String)
    ensures
        r@ == placeholder(n as nat),
{
    let mut out = String::from_str(":v");
    let digits = decimal_string(n);
    out.append(digits.as_str());
    out
}

/// Whether `key` is one of `fields`.
#[verifier::loop_isolation(false)]
fn contains_field(fields: &Vec<String>, key: &String) -> (r: bool)
    ensures
        r == fields.deep_view().contains(key@),
{
    let mut i: usize = 0;
    while i < fields.len()
        invariant
            i <= fields.len(),
            forall|j: int| 0 <= j < i ==> fields.deep_view()[j] != key@,
        decreases fields.len() - i,
    {
        proof {
            assert(fields.deep_view()[i as int] == fields@[i as int]@);
        }
        if fields[i] == *key {
            return true;
        }
        i += 1;
    }
    false
}

/// The parts rendering the single condition `key:value`, as
/// `spec_condition` lays them out.
fn value_to_condition(key: &String, value: &Value) -> (parts: Vec<Part>)
    ensures
        parts.deep_view() == spec_condition(key@, value@),
{
    let mut parts: Vec<Part> = Vec::new();
    match value {
        Value::Integer(n) => {
            let mut sql = String::from_str("`");
            sql.append(key.as_str());
            sql.append("` = ");
            parts.push(Part::Sql(sql));
            parts.push(Part::Parameter(Literal::Integer(*n)));
        },
        Value::Boolean(b) => {
            let mut sql = String::from_str("`");
            sql.append(key.as_str());
            sql.append("` = ");
            parts.push(Part::Sql(sql));
            parts.push(Part::Parameter(Literal::Boolean(*b)));
        },
        Value::Text(t) => {
            let mut sql = String::from_str("`");
            sql.append(key.as_str());
            sql.append("` LIKE CONCAT('%', ");
            parts.push(Part::Sql(sql));
            parts.push(Part::Parameter(Literal::Text(t.clone())));
            parts.push(Part::Sql(String::from_str(", '%')")));
        },
        Value::Range(lo, hi) => {
            let mut first = String::from_str("(`");
            first.append(key.as_str());
            first.append("` ");
            first.append(start_op_str(lo.kind));
            first.append(" ");
            parts.push(Part::Sql(first));
            parts.push(Part::Parameter(Literal::Integer(lo.value)));
            let mut second = String::from_str(" AND `");
            second.append(key.as_str());
            second.append("` ");
            second.append(end_op_str(hi.kind));
            second.append(" ");
            parts.push(Part::Sql(second));
            parts.push(Part::Parameter(Literal::Integer(hi.value)));
            parts.push(Part::Sql(String::from_str(")")));
        },
    }
    proof {
        assert(parts.deep_view() =~~= spec_condition(key@, value@));
    }
    parts
}

/// Reduces the tree to its parts, or to the offending field name(s), as
/// `spec_parts` prescribes.
fn sql_reducer(tree: &Term, allowed: &Option<Vec<String>>) -> (r: Result<Vec<Part>, String>)
    ensures
        match spec_parts(tree@, allowed.deep_view()) {
            Ok(ps) => r matches Ok(parts) && parts.deep_view() == ps,
            Err(e) => r matches Err(msg) && msg@ == e,
        },
    decreases tree,
{
    match tree {
        Term::Expression(e) => {
            let mut parts: Vec<Part> = Vec::new();
            parts.push(Part::Sql(e.clone()));
            proof {
                assert(parts.deep_view() =~~= seq![PartModel::Sql(e@)]);
            }
            Ok(parts)
        },
        Term::Named { key, value } => {
            let whitelisted = match allowed {
                Some(fields) => contains_field(fields, key),
                None => true,
            };
            if whitelisted {
                Ok(value_to_condition(key, value))
            } else {
                Err(key.clone())
            }
        },
        Term::Combined { left, right, operator, grouping } => {
            let lres = sql_reducer(left, allowed);
            let rres = sql_reducer(right, allowed);
            match (lres, rres) {
                (Ok(mut lp), Ok(mut rp)) => {
                    let ghost goal = spec_parts(tree@, allowed.deep_view())->Ok_0;
                    let mut parts: Vec<Part> = Vec::new();
                    if *grouping {
                        parts.push(Part::Sql(String::from_str("(")));
                    }
                    parts.append(&mut lp);
                    parts.push(Part::Sql(op_string(*operator)));
                    parts.append(&mut rp);
                    if *grouping {
                        parts.push(Part::Sql(String::from_str(")")));
                    }
                    proof {
                        assert(parts.deep_view() =~~= goal);
                    }
                    Ok(parts)
                },
                (Err(a), Ok(_)) => Err(a),
                (Ok(_), Err(b)) => Err(b),
                (Err(a), Err(b)) => {
                    let mut msg = a;
                    msg.append(", ");
                    msg.append(b.as_str());
                    proof {
                        assert(msg@ =~= spec_parts(tree@, allowed.deep_view())->Err_0);
                    }
                    Err(msg)
                },
            }
        },
        Term::Default(v) => Err(String::new()),
    }
}

/// The projection clause: `*` without a whitelist, else the quoted,
/// comma-joined whitelist fields in list order.
#[verifier::loop_isolation(false)]
fn projection_string(allowed: &Option<Vec<String>>) -> (r: String)
    ensures
        r@ == spec_projection(allowed.deep_view()),
{
    match allowed {
        None => String::from_str("*"),
        Some(fields) => {
            let ghost fv = fields.deep_view();
            let mut out = String::new();
            let mut i: usize = 0;
            while i < fields.len()
                invariant
                    i <= fields.len(),
                    join_fields(fv, 0) == out@ + join_fields(fv, i as int),
                decreases fields.len() - i,
            {
                proof {
                    assert(fv[i as int] == fields@[i as int]@);
                }
                out.append("`");
                out.append(fields[i].as_str());
                if i + 1 < fields.len() {
                    out.append("`, ");
                    proof {
                        assert(out@ + join_fields(fv, i + 1) =~= join_fields(fv, 0));
                    }
                } else {
                    out.append("`");
                    proof {
                        assert(out@ + join_fields(fv, i + 1) =~= join_fields(fv, 0));
                    }
                }
                i += 1;
            }
            proof {
                assert(out@ + join_fields(fv, fields.len() as int) =~= out@);
            }
            out
        },
    }
}

/// Composes the final statement from a rewritten tree: renders the tree's
/// conditions with fresh named parameters `:v0`, `:v1`, ... and wraps them
/// in `SELECT {projection} FROM `{table}` WHERE {condition};`, exactly as
/// `spec_to_sql` prescribes. Fails with the offending field name(s) if and
/// only if some `Named` key is missing from the whitelist.
///
/// The tree must hold only `Named`, `Expression` and `Combined` nodes
/// (`composable`); a `Default` leaf here is a caller contract violation.
#[verifier::loop_isolation(false)]
pub fn to_sql(tree: &Term, table: &str, allowed_fields: Option<Vec<String>>) -> (r: Result<
    Query,
    String,
>)
    requires
        composable(tree@),
    ensures
        match spec_to_sql(tree@, table@, allowed_fields.deep_view()) {
            Ok(q) => r matches Ok(res) && res@ == q,
            Err(e) => r matches Err(msg) && msg@ == e,
        },
{
    let parts = match sql_reducer(tree, &allowed_fields) {
        Ok(parts) => parts,
        Err(msg) => {
            return Err(msg);
        },
    };
    let ghost pv = parts.deep_view();
    let ghost rendered = spec_render_from(pv, 0, 0);

    let mut cond = String::new();
    let mut named_params: Vec<(String, Literal)> = Vec::new();
    let mut i: usize = 0;
    while i < parts.len()
        invariant
            i <= parts.len(),
            named_params.deep_view().len() == named_params.len(),
            rendered.0 == cond@ + spec_render_from(pv, i as int, named_params@.len() as nat).0,
            rendered.1 == named_params.deep_view() + spec_render_from(
                pv,
                i as int,
                named_params@.len() as nat,
            ).1,
        decreases parts.len() - i,
    {
        let ghost n = named_params@.len() as nat;
        proof {
            assert(pv[i as int] == parts@[i as int]@);
        }
        match &parts[i] {
            Part::Sql(sql) => {
                cond.append(sql.as_str());
                proof {
                    assert(rendered.0 =~= cond@ + spec_render_from(pv, i + 1, n).0);
                }
            },
            Part::Parameter(v) => {
                let ghost np0 = named_params.deep_view();
                let name = placeholder_string(named_params.len());
                cond.append(name.as_str());
                named_params.push((name, v.clone()));
                proof {
                    assert(named_params.deep_view() =~~= np0 + seq![(placeholder(n), v@)]);
                    assert(rendered.0 =~= cond@ + spec_render_from(pv, i + 1, n + 1).0);
                    assert(rendered.1 =~~= named_params.deep_view() + spec_render_from(
                        pv,
                        i + 1,
                        n + 1,
                    ).1);
                }
            },
        }
        i += 1;
    }
    proof {
        assert(rendered.0 =~= cond@);
        assert(rendered.1 =~~= named_params.deep_view());
    }

    let mut body = String::from_str("SELECT ");
    let projection = projection_string(&allowed_fields);
    body.append(projection.as_str());
    body.append(" FROM `");
    body.append(table);
    body.append("` WHERE ");
    body.append(cond.as_str());
    body.append(";");

    let result = Query { body, named_params };
    proof {
        assert(result@.body =~= spec_to_sql(
            tree@,
            table@,
            allowed_fields.deep_view(),
        )->Ok_0.body);
    }
    Ok(result)
}

} // verus!
