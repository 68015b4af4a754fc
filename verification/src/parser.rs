//! Recursive-descent parser for the query language.
//!
//! The grammar, in descending binding order: a value is a range
//! (`[1 TO 10]`, `{`/`}` for exclusive endpoints), a boolean literal, an
//! integer, a quoted phrase or a bare token; a term is `key:value` or a bare
//! value; a group is a parenthesized expression; expressions are combined by
//! `AND`/`&&`, `OR`/`||`, or plain whitespace (which means `OR`), and chains
//! associate to the left. The whole input must be consumed; integer overflow,
//! malformed ranges and unterminated phrases are parse errors.
//!
//! The functions `spec_query`, `spec_expr` and so on form the mathematical
//! definition of the grammar over a `Seq<char>`; the executable functions
//! return exactly what those definitions say, as stated in each `ensures`.

use crate::ast::{Boundary, BoundaryKind, Operator, Term, TermModel, Value, ValueModel};
use vstd::prelude::*;
use vstd::string::StrSliceExecFns;
use vstd::string::StringExecFns;

verus! {

/// A failed parse; `position` is the character offset at which the parser
/// gave up.
#[derive(Clone, Copy, Debug, PartialEq, Eq, Structural)]
pub struct ParseError {
    pub position: usize,
}

/// The outcome of one specification-level parsing step: a parsed item with
/// the position just after it, a mismatch that the caller may backtrack
/// from, or a hard error at a position.
pub enum Step<T> {
    Hit(T, int),
    Miss,
    Fail(int),
}

/// The outcome of one executable parsing step; mirrors `Step`.
enum Scan<T> {
    Hit(T, usize),
    Miss,
    Fail(usize),
}

/// The specification-level reading of an executable step.
spec fn scan_abs<T: View>(r: Scan<T>) -> Step<T::V> {
    match r {
        Scan::Hit(v, q) => Step::Hit(v@, q as int),
        Scan::Miss => Step::Miss,
        Scan::Fail(at) => Step::Fail(at as int),
    }
}

/// Relies on `String::push`: appends exactly one character.
#[verifier::external_body]
pub(crate) fn push_char(s: &mut String, c: char)
    ensures
        final(s)@ == old(s)@.push(c),
{
    s.push(c);
}

/// A new string holding `c` followed by `rest`.
fn prepend(c: char, rest: String) -> (r: String)
    ensures
        r@ == seq![c] + rest@,
{
    let mut out = String::new();
    push_char(&mut out, c);
    out.append(rest.as_str());
    proof {
        assert(out@ =~= seq![c] + rest@);
    }
    out
}

/// The characters of `s`, in order.
#[verifier::loop_isolation(false)]
fn chars_of(s: &str) -> (r: Vec<char>)
    ensures
        r@ == s@,
{
    let n = s.unicode_len();
    let mut out: Vec<char> = Vec::new();
    let mut i: usize = 0;
    while i < n
        invariant
            i <= n,
            n == s@.len(),
            out@ == s@.take(i as int),
        decreases n - i,
    {
        out.push(s.get_char(i));
        proof {
            assert(out@ =~= s@.take(i + 1));
        }
        i += 1;
    }
    proof {
        assert(s@.take(n as int) =~= s@);
    }
    out
}

pub open spec fn is_space_char(c: char) -> bool {
    c == ' ' || c == '\t' || c == '\r' || c == '\n'
}

pub open spec fn is_digit_char(c: char) -> bool {
    '0' as u32 <= c as u32 && c as u32 <= '9' as u32
}

/// The characters a bare token may consist of: ASCII alphanumerics plus
/// `-`, `_` and `.`.
pub open spec fn is_term_char(c: char) -> bool {
    ||| 'a' as u32 <= c as u32 && c as u32 <= 'z' as u32
    ||| 'A' as u32 <= c as u32 && c as u32 <= 'Z' as u32
    ||| is_digit_char(c)
    ||| c == '-' || c == '_' || c == '.'
}

pub open spec fn digit_val(c: char) -> int {
    c as u32 - '0' as u32
}

/// The character an escape sequence `\c` inside a phrase stands for, if `c`
/// is one of the four accepted escapes.
pub open spec fn escape_char(c: char) -> Option<char> {
    if c == '\\' {
        Some('\\')
    } else if c == '"' {
        Some('"')
    } else if c == 'n' {
        Some('\n')
    } else if c == 't' {
        Some('\t')
    } else {
        None
    }
}

fn ch_is_space(c: char) -> (r: bool)
    ensures
        r == is_space_char(c),
{
    c == ' ' || c == '\t' || c == '\r' || c == '\n'
}

fn ch_is_digit(c: char) -> (r: bool)
    ensures
        r == is_digit_char(c),
{
    let u = c as u32;
    '0' as u32 <= u && u <= '9' as u32
}

fn ch_is_term(c: char) -> (r: bool)
    ensures
        r == is_term_char(c),
{
    let u = c as u32;
    ('a' as u32 <= u && u <= 'z' as u32) || ('A' as u32 <= u && u <= 'Z' as u32) || ('0' as u32
        <= u && u <= '9' as u32) || c == '-' || c == '_' || c == '.'
}

fn ch_escape(c: char) -> (r: Option<char>)
    ensures
        r == escape_char(c),
{
    if c == '\\' {
        Some('\\')
    } else if c == '"' {
        Some('"')
    } else if c == 'n' {
        Some('\n')
    } else if c == 't' {
        Some('\t')
    } else {
        None
    }
}

/// The first position at or after `p` that does not hold whitespace.
pub open spec fn skip_space(s: Seq<char>, p: int) -> int
    decreases s.len() - p,
{
    if 0 <= p < s.len() && is_space_char(s[p]) {
        skip_space(s, p + 1)
    } else {
        p
    }
}

fn space(s: &Vec<char>, p: usize) -> (r: usize)
    requires
        p <= s.len(),
    ensures
        r as int == skip_space(s@, p as int),
        p <= r <= s.len(),
    decreases s@.len() - p,
{
    if p < s.len() && ch_is_space(s[p]) {
        space(s, p + 1)
    } else {
        p
    }
}

/// The body of a quoted phrase, read from just after the opening quote:
/// characters other than `\` and `"` pass through, `\\`, `\"`, `\n` and
/// `\t` are unescaped, the closing quote ends the phrase, and a bad escape
/// or the end of input is a hard error.
pub open spec fn spec_phrase_tail(s: Seq<char>, p: int) -> Step<Seq<char>>
    decreases s.len() - p,
{
    if p < 0 || p >= s.len() {
        Step::Fail(p)
    } else if s[p] == '"' {
        Step::Hit(Seq::empty(), p + 1)
    } else if s[p] == '\\' {
        if p + 1 < s.len() && escape_char(s[p + 1]) is Some {
            match spec_phrase_tail(s, p + 2) {
                Step::Hit(rest, q) => Step::Hit(seq![escape_char(s[p + 1]).unwrap()] + rest, q),
                r => r,
            }
        } else {
            Step::Fail(p)
        }
    } else {
        match spec_phrase_tail(s, p + 1) {
            Step::Hit(rest, q) => Step::Hit(seq![s[p]] + rest, q),
            r => r,
        }
    }
}

fn phrase_tail(s: &Vec<char>, p: usize) -> (r: Scan<String>)
    requires
        p <= s.len(),
    ensures
        scan_abs(r) == spec_phrase_tail(s@, p as int),
        r matches Scan::Hit(_, q) ==> p < q <= s.len(),
    decreases s@.len() - p,
{
    if p >= s.len() {
        return Scan::Fail(p);
    }
    let c = s[p];
    if c == '"' {
        Scan::Hit(String::new(), p + 1)
    } else if c == '\\' {
        if p + 1 < s.len() {
            match ch_escape(s[p + 1]) {
                Some(e) => match phrase_tail(s, p + 2) {
                    Scan::Hit(rest, q) => Scan::Hit(prepend(e, rest), q),
                    Scan::Miss => Scan::Miss,
                    Scan::Fail(at) => Scan::Fail(at),
                },
                None => Scan::Fail(p),
            }
        } else {
            Scan::Fail(p)
        }
    } else {
        match phrase_tail(s, p + 1) {
            Scan::Hit(rest, q) => Scan::Hit(prepend(c, rest), q),
            Scan::Miss => Scan::Miss,
            Scan::Fail(at) => Scan::Fail(at),
        }
    }
}

/// The end of the run of token characters beginning at `p`.
pub open spec fn term_run_end(s: Seq<char>, p: int) -> int
    decreases s.len() - p,
{
    if 0 <= p < s.len() && is_term_char(s[p]) {
        term_run_end(s, p + 1)
    } else {
        p
    }
}

/// A bare token: one or more token characters.
pub open spec fn spec_single_term(s: Seq<char>, p: int) -> Step<Seq<char>> {
    if 0 <= p < s.len() && is_term_char(s[p]) {
        Step::Hit(s.subrange(p, term_run_end(s, p)), term_run_end(s, p))
    } else {
        Step::Miss
    }
}

fn term_run(s: &Vec<char>, p: usize) -> (r: (String, usize))
    requires
        p <= s.len(),
    ensures
        r.1 as int == term_run_end(s@, p as int),
        r.0@ == s@.subrange(p as int, r.1 as int),
        p <= r.1 <= s.len(),
        0 <= (p as int) < s@.len() && is_term_char(s@[p as int]) ==> p < r.1,
    decreases s@.len() - p,
{
    if p < s.len() {
        let c = s[p];
        if ch_is_term(c) {
            let (rest, q) = term_run(s, p + 1);
            let out = prepend(c, rest);
            proof {
                assert(out@ =~= s@.subrange(p as int, q as int));
            }
            return (out, q);
        }
    }
    proof {
        assert(s@.subrange(p as int, p as int) =~= Seq::<char>::empty());
    }
    (String::new(), p)
}

fn single_term(s: &Vec<char>, p: usize) -> (r: Scan<String>)
    requires
        p <= s.len(),
    ensures
        scan_abs(r) == spec_single_term(s@, p as int),
        r matches Scan::Hit(_, q) ==> p < q <= s.len(),
{
    if p < s.len() && ch_is_term(s[p]) {
        let (out, q) = term_run(s, p);
        Scan::Hit(out, q)
    } else {
        Scan::Miss
    }
}

/// Reads decimal digits left to right into `acc`; the step in which
/// `10 * acc + digit` would exceed `i64::MAX` is a hard error (overflow).
pub open spec fn spec_int_tail(s: Seq<char>, p: int, acc: i64) -> Step<i64>
    decreases s.len() - p,
{
    if 0 <= p < s.len() && is_digit_char(s[p]) {
        let d = digit_val(s[p]);
        if acc <= (i64::MAX - d) / 10 {
            spec_int_tail(s, p + 1, (10 * acc + d) as i64)
        } else {
            Step::Fail(p)
        }
    } else {
        Step::Hit(acc, p)
    }
}

/// An integer literal: one or more decimal digits, valued as a signed
/// 64-bit integer; overflow is a hard error.
pub open spec fn spec_integer(s: Seq<char>, p: int) -> Step<i64> {
    if 0 <= p < s.len() && is_digit_char(s[p]) {
        spec_int_tail(s, p, 0)
    } else {
        Step::Miss
    }
}

fn digit_value(c: char) -> (d: i64)
    requires
        is_digit_char(c),
    ensures
        d == digit_val(c),
        0 <= d <= 9,
{
    let u = c as u32;
    (u - '0' as u32) as i64
}

fn int_tail(s: &Vec<char>, p: usize, acc: i64) -> (r: Scan<i64>)
    requires
        p <= s.len(),
        0 <= acc,
    ensures
        scan_abs(r) == spec_int_tail(s@, p as int, acc),
        r matches Scan::Hit(_, q) ==> p <= q <= s.len(),
        0 <= (p as int) < s@.len() && is_digit_char(s@[p as int]) ==> (r matches Scan::Hit(_, q)
            ==> p < q),
    decreases s@.len() - p,
{
    if p < s.len() {
        let c = s[p];
        if ch_is_digit(c) {
            let d = digit_value(c);
            if acc <= (i64::MAX - d) / 10 {
                proof {
                    assert((i64::MAX - d) / 10 * 10 <= i64::MAX - d) by (nonlinear_arith)
                        requires 0 <= d <= 9;
                }
                return int_tail(s, p + 1, 10 * acc + d);
            } else {
                return Scan::Fail(p);
            }
        }
    }
    Scan::Hit(acc, p)
}

fn integer(s: &Vec<char>, p: usize) -> (r: Scan<i64>)
    requires
        p <= s.len(),
    ensures
        scan_abs(r) == spec_integer(s@, p as int),
        r matches Scan::Hit(_, q) ==> p < q <= s.len(),
{
    if p < s.len() && ch_is_digit(s[p]) {
        int_tail(s, p, 0)
    } else {
        Scan::Miss
    }
}

/// The boolean literals, exactly `true` and `false`.
pub open spec fn spec_boolean(s: Seq<char>, p: int) -> Step<bool> {
    if 0 <= p && p + 4 <= s.len() && s[p] == 't' && s[p + 1] == 'r' && s[p + 2] == 'u' && s[p + 3]
        == 'e' {
        Step::Hit(true, p + 4)
    } else if 0 <= p && p + 5 <= s.len() && s[p] == 'f' && s[p + 1] == 'a' && s[p + 2] == 'l' && s[p
        + 3] == 's' && s[p + 4] == 'e' {
        Step::Hit(false, p + 5)
    } else {
        Step::Miss
    }
}

fn boolean(s: &Vec<char>, p: usize) -> (r: Scan<bool>)
    requires
        p <= s.len(),
    ensures
        scan_abs(r) == spec_boolean(s@, p as int),
        r matches Scan::Hit(_, q) ==> p < q <= s.len(),
{
    if s.len() - p >= 4 && s[p] == 't' && s[p + 1] == 'r' && s[p + 2] == 'u' && s[p + 3] == 'e' {
        Scan::Hit(true, p + 4)
    } else if s.len() - p >= 5 && s[p] == 'f' && s[p + 1] == 'a' && s[p + 2] == 'l' && s[p + 3]
        == 's' && s[p + 4] == 'e' {
        Scan::Hit(false, p + 5)
    } else {
        Scan::Miss
    }
}

/// A range, read from its opening `[` or `{`: optional whitespace, an
/// integer, whitespace, `TO`, whitespace, an integer, optional whitespace,
/// and a closing `]` or `}`; brackets are inclusive, braces exclusive,
/// independently for each side. Any misstep after the opening marker is a
/// hard error.
pub open spec fn spec_range(s: Seq<char>, p: int) -> Step<ValueModel> {
    let start_kind = if s[p] == '[' {
        BoundaryKind::Inclusive
    } else {
        BoundaryKind::Exclusive
    };
    let p1 = skip_space(s, p + 1);
    match spec_integer(s, p1) {
        Step::Miss => Step::Fail(p1),
        Step::Fail(at) => Step::Fail(at),
        Step::Hit(start, p2) => {
            if p2 < s.len() && is_space_char(s[p2]) {
                let p3 = skip_space(s, p2);
                if s.len() - p3 >= 2 && s[p3] == 'T' && s[p3 + 1] == 'O' {
                    let p4 = p3 + 2;
                    if p4 < s.len() && is_space_char(s[p4]) {
                        let p5 = skip_space(s, p4);
                        match spec_integer(s, p5) {
                            Step::Miss => Step::Fail(p5),
                            Step::Fail(at) => Step::Fail(at),
                            Step::Hit(end, p6) => {
                                let p7 = skip_space(s, p6);
                                if p7 < s.len() && (s[p7] == ']' || s[p7] == '}') {
                                    let end_kind = if s[p7] == ']' {
                                        BoundaryKind::Inclusive
                                    } else {
                                        BoundaryKind::Exclusive
                                    };
                                    Step::Hit(
                                        ValueModel::Range(
                                            Boundary { value: start, kind: start_kind },
                                            Boundary { value: end, kind: end_kind },
                                        ),
                                        p7 + 1,
                                    )
                                } else {
                                    Step::Fail(p7)
                                }
                            },
                        }
                    } else {
                        Step::Fail(p4)
                    }
                } else {
                    Step::Fail(p3)
                }
            } else {
                Step::Fail(p2)
            }
        },
    }
}

fn range(s: &Vec<char>, p: usize) -> (r: Scan<Value>)
    requires
        p < s.len(),
        s@[p as int] == '[' || s@[p as int] == '{',
    ensures
        scan_abs(r) == spec_range(s@, p as int),
        r matches Scan::Hit(_, q) ==> p < q <= s.len(),
{
    let start_kind = if s[p] == '[' {
        BoundaryKind::Inclusive
    } else {
        BoundaryKind::Exclusive
    };
    let p1 = space(s, p + 1);
    match integer(s, p1) {
        Scan::Miss => Scan::Fail(p1),
        Scan::Fail(at) => Scan::Fail(at),
        Scan::Hit(start, p2) => {
            if p2 < s.len() && ch_is_space(s[p2]) {
                let p3 = space(s, p2);
                if s.len() - p3 >= 2 && s[p3] == 'T' && s[p3 + 1] == 'O' {
                    let p4 = p3 + 2;
                    if p4 < s.len() && ch_is_space(s[p4]) {
                        let p5 = space(s, p4);
                        match integer(s, p5) {
                            Scan::Miss => Scan::Fail(p5),
                            Scan::Fail(at) => Scan::Fail(at),
                            Scan::Hit(end, p6) => {
                                let p7 = space(s, p6);
                                if p7 < s.len() && (s[p7] == ']' || s[p7] == '}') {
                                    let end_kind = if s[p7] == ']' {
                                        BoundaryKind::Inclusive
                                    } else {
                                        BoundaryKind::Exclusive
                                    };
                                    Scan::Hit(
                                        Value::Range(
                                            Boundary { value: start, kind: start_kind },
                                            Boundary { value: end, kind: end_kind },
                                        ),
                                        p7 + 1,
                                    )
                                } else {
                                    Scan::Fail(p7)
                                }
                            },
                        }
                    } else {
                        Scan::Fail(p4)
                    }
                } else {
                    Scan::Fail(p3)
                }
            } else {
                Scan::Fail(p2)
            }
        },
    }
}

/// A value: a range is tried before a boolean, a boolean before an integer,
/// and an integer before free text, so that typed forms win over text.
pub open spec fn spec_value(s: Seq<char>, p: int) -> Step<ValueModel> {
    if 0 <= p < s.len() && (s[p] == '[' || s[p] == '{') {
        spec_range(s, p)
    } else {
        match spec_boolean(s, p) {
            Step::Hit(b, q) => Step::Hit(ValueModel::Boolean(b), q),
            _ => match spec_integer(s, p) {
                Step::Hit(n, q) => Step::Hit(ValueModel::Integer(n), q),
                Step::Fail(at) => Step::Fail(at),
                Step::Miss => if 0 <= p < s.len() && s[p] == '"' {
                    match spec_phrase_tail(s, p + 1) {
                        Step::Hit(t, q) => Step::Hit(ValueModel::Text(t), q),
                        Step::Fail(at) => Step::Fail(at),
                        Step::Miss => Step::Miss,
                    }
                } else {
                    match spec_single_term(s, p) {
                        Step::Hit(t, q) => Step::Hit(ValueModel::Text(t), q),
                        _ => Step::Miss,
                    }
                },
            },
        }
    }
}

fn value(s: &Vec<char>, p: usize) -> (r: Scan<Value>)
    requires
        p <= s.len(),
    ensures
        scan_abs(r) == spec_value(s@, p as int),
        r matches Scan::Hit(_, q) ==> p < q <= s.len(),
{
    if p < s.len() && (s[p] == '[' || s[p] == '{') {
        return range(s, p);
    }
    match boolean(s, p) {
        Scan::Hit(b, q) => Scan::Hit(Value::Boolean(b), q),
        _ => match integer(s, p) {
            Scan::Hit(n, q) => Scan::Hit(Value::Integer(n), q),
            Scan::Fail(at) => Scan::Fail(at),
            Scan::Miss => if p < s.len() && s[p] == '"' {
                match phrase_tail(s, p + 1) {
                    Scan::Hit(t, q) => Scan::Hit(Value::Text(t), q),
                    Scan::Fail(at) => Scan::Fail(at),
                    Scan::Miss => Scan::Miss,
                }
            } else {
                match single_term(s, p) {
                    Scan::Hit(t, q) => Scan::Hit(Value::Text(t), q),
                    _ => Scan::Miss,
                }
            },
        },
    }
}

/// A bare value standing alone, as a `Default` term.
pub open spec fn spec_default(s: Seq<char>, p: int) -> Step<TermModel> {
    match spec_value(s, p) {
        Step::Hit(v, q) => Step::Hit(TermModel::Default(v), q),
        Step::Miss => Step::Miss,
        Step::Fail(at) => Step::Fail(at),
    }
}

/// A term: `key:value` (a `Named` term) when a bare token is immediately
/// followed by `:`, otherwise a bare value alone (a `Default` term).
/// A missing value after `key:` is a hard error.
pub open spec fn spec_term(s: Seq<char>, p: int) -> Step<TermModel> {
    match spec_single_term(s, p) {
        Step::Hit(k, q) => if q < s.len() && s[q] == ':' {
            match spec_value(s, q + 1) {
                Step::Hit(v, q2) => Step::Hit(TermModel::Named { key: k, value: v }, q2),
                Step::Miss => Step::Fail(q + 1),
                Step::Fail(at) => Step::Fail(at),
            }
        } else {
            spec_default(s, p)
        },
        _ => spec_default(s, p),
    }
}

fn default_term(s: &Vec<char>, p: usize) -> (r: Scan<Term>)
    requires
        p <= s.len(),
    ensures
        scan_abs(r) == spec_default(s@, p as int),
        r matches Scan::Hit(_, q) ==> p < q <= s.len(),
{
    match value(s, p) {
        Scan::Hit(v, q) => Scan::Hit(Term::Default(v), q),
        Scan::Miss => Scan::Miss,
        Scan::Fail(at) => Scan::Fail(at),
    }
}

fn term(s: &Vec<char>, p: usize) -> (r: Scan<Term>)
    requires
        p <= s.len(),
    ensures
        scan_abs(r) == spec_term(s@, p as int),
        r matches Scan::Hit(_, q) ==> p < q <= s.len(),
{
    match single_term(s, p) {
        Scan::Hit(k, q) => {
            if q < s.len() && s[q] == ':' {
                match value(s, q + 1) {
                    Scan::Hit(v, q2) => Scan::Hit(Term::Named { key: k, value: v }, q2),
                    Scan::Miss => Scan::Fail(q + 1),
                    Scan::Fail(at) => Scan::Fail(at),
                }
            } else {
                default_term(s, p)
            }
        },
        _ => default_term(s, p),
    }
}

/// An operator between two expressions: `AND`/`&&`, `OR`/`||`, or nothing
/// but (possibly empty) whitespace, which reads as `OR`. Surrounding
/// whitespace is consumed. This never fails; the returned position equals
/// `p` exactly when nothing at all was consumed.
pub open spec fn spec_operator(s: Seq<char>, p: int) -> (Operator, int) {
    let p1 = skip_space(s, p);
    if p1 + 3 <= s.len() && s[p1] == 'A' && s[p1 + 1] == 'N' && s[p1 + 2] == 'D' {
        (Operator::And, skip_space(s, p1 + 3))
    } else if p1 + 2 <= s.len() && s[p1] == '&' && s[p1 + 1] == '&' {
        (Operator::And, skip_space(s, p1 + 2))
    } else if p1 + 2 <= s.len() && s[p1] == 'O' && s[p1 + 1] == 'R' {
        (Operator::Or, skip_space(s, p1 + 2))
    } else if p1 + 2 <= s.len() && s[p1] == '|' && s[p1 + 1] == '|' {
        (Operator::Or, skip_space(s, p1 + 2))
    } else {
        (Operator::Or, p1)
    }
}

fn operator(s: &Vec<char>, p: usize) -> (r: (Operator, usize))
    requires
        p <= s.len(),
    ensures
        (r.0, r.1 as int) == spec_operator(s@, p as int),
        p <= r.1 <= s.len(),
{
    let p1 = space(s, p);
    if s.len() - p1 >= 3 && s[p1] == 'A' && s[p1 + 1] == 'N' && s[p1 + 2] == 'D' {
        (Operator::And, space(s, p1 + 3))
    } else if s.len() - p1 >= 2 && s[p1] == '&' && s[p1 + 1] == '&' {
        (Operator::And, space(s, p1 + 2))
    } else if s.len() - p1 >= 2 && s[p1] == 'O' && s[p1 + 1] == 'R' {
        (Operator::Or, space(s, p1 + 2))
    } else if s.len() - p1 >= 2 && s[p1] == '|' && s[p1 + 1] == '|' {
        (Operator::Or, space(s, p1 + 2))
    } else {
        (Operator::Or, p1)
    }
}

/// Marks a `Combined` node as explicitly parenthesized; any other term is
/// returned unwrapped, as the grammar prescribes for a parenthesized single
/// term.
pub open spec fn set_grouping(t: TermModel) -> TermModel {
    match t {
        TermModel::Combined { left, right, operator, grouping } => TermModel::Combined {
            left,
            right,
            operator,
            grouping: true,
        },
        _ => t,
    }
}

/// A parenthesized expression, read from its opening `(`; the resulting
/// `Combined` node records `grouping = true`. A missing `)` is a hard
/// error.
pub open spec fn spec_group(s: Seq<char>, p: int) -> Step<TermModel>
    decreases s.len() - p, 0int,
{
    if p < 0 || p + 1 > s.len() {
        Step::Fail(p)
    } else {
        let p1 = skip_space(s, p + 1);
        if p1 < p + 1 || p1 > s.len() {
            Step::Fail(p)
        } else {
            match spec_expr(s, p1) {
                Step::Hit(t, p2) => {
                    let p3 = skip_space(s, p2);
                    if 0 <= p3 < s.len() && s[p3] == ')' {
                        Step::Hit(set_grouping(t), p3 + 1)
                    } else {
                        Step::Fail(p3)
                    }
                },
                Step::Miss => Step::Fail(p1),
                Step::Fail(at) => Step::Fail(at),
            }
        }
    }
}

/// A group or a single term: the unit that operators combine.
pub open spec fn spec_partial_expr(s: Seq<char>, p: int) -> Step<TermModel>
    decreases s.len() - p, 1int,
{
    if 0 <= p < s.len() && s[p] == '(' {
        spec_group(s, p)
    } else {
        spec_term(s, p)
    }
}

/// Extends `acc` with further `operator partial-expression` pairs,
/// left-associating each into a `Combined` node, until no further unit
/// follows; then yields the chain built so far, positioned before the
/// trailing operator.
pub open spec fn spec_expr_tail(s: Seq<char>, p: int, acc: TermModel) -> Step<TermModel>
    decreases s.len() - p, 2int,
{
    if p < 0 || p > s.len() {
        Step::Fail(p)
    } else {
        let (op, p2) = spec_operator(s, p);
        if p2 < p || p2 > s.len() {
            Step::Fail(p)
        } else {
            match spec_partial_expr(s, p2) {
                Step::Hit(t, p3) => if p < p3 && p3 <= s.len() {
                    spec_expr_tail(
                        s,
                        p3,
                        TermModel::Combined {
                            left: Box::new(acc),
                            right: Box::new(t),
                            operator: op,
                            grouping: false,
                        },
                    )
                } else {
                    Step::Fail(p)
                },
                Step::Miss => Step::Hit(acc, p),
                Step::Fail(at) => Step::Fail(at),
            }
        }
    }
}

/// One or more units separated by operators, left-associated in source
/// order into a chain of `Combined` nodes with `grouping = false`.
pub open spec fn spec_expr(s: Seq<char>, p: int) -> Step<TermModel>
    decreases s.len() - p, 3int,
{
    if p < 0 || p > s.len() {
        Step::Fail(p)
    } else {
        match spec_partial_expr(s, p) {
            Step::Hit(t, p1) => if p < p1 && p1 <= s.len() {
                spec_expr_tail(s, p1, t)
            } else {
                Step::Fail(p)
            },
            Step::Miss => Step::Miss,
            Step::Fail(at) => Step::Fail(at),
        }
    }
}

fn group(s: &Vec<char>, p: usize) -> (r: Scan<Term>)
    requires
        p < s.len(),
        s@[p as int] == '(',
    ensures
        scan_abs(r) == spec_group(s@, p as int),
        r matches Scan::Hit(_, q) ==> p < q <= s.len(),
    decreases s@.len() - p, 0int,
{
    let p1 = space(s, p + 1);
    match expr(s, p1) {
        Scan::Hit(t, p2) => {
            let p3 = space(s, p2);
            if p3 < s.len() && s[p3] == ')' {
                let grouped = match t {
                    Term::Combined { left, right, operator, grouping } => Term::Combined {
                        left,
                        right,
                        operator,
                        grouping: true,
                    },
                    other => other,
                };
                Scan::Hit(grouped, p3 + 1)
            } else {
                Scan::Fail(p3)
            }
        },
        Scan::Miss => Scan::Fail(p1),
        Scan::Fail(at) => Scan::Fail(at),
    }
}

fn partial_expr(s: &Vec<char>, p: usize) -> (r: Scan<Term>)
    requires
        p <= s.len(),
    ensures
        scan_abs(r) == spec_partial_expr(s@, p as int),
        r matches Scan::Hit(_, q) ==> p < q <= s.len(),
    decreases s@.len() - p, 1int,
{
    if p < s.len() && s[p] == '(' {
        group(s, p)
    } else {
        term(s, p)
    }
}

fn expr_tail(s: &Vec<char>, p: usize, acc: Term) -> (r: Scan<Term>)
    requires
        p <= s.len(),
    ensures
        scan_abs(r) == spec_expr_tail(s@, p as int, acc@),
        r matches Scan::Hit(_, q) ==> p <= q <= s.len(),
    decreases s@.len() - p, 2int,
{
    let (op, p2) = operator(s, p);
    match partial_expr(s, p2) {
        Scan::Hit(t, p3) => {
            let combined = Term::Combined {
                left: Box::new(acc),
                right: Box::new(t),
                operator: op,
                grouping: false,
            };
            expr_tail(s, p3, combined)
        },
        Scan::Miss => Scan::Hit(acc, p),
        Scan::Fail(at) => Scan::Fail(at),
    }
}

fn expr(s: &Vec<char>, p: usize) -> (r: Scan<Term>)
    requires
        p <= s.len(),
    ensures
        scan_abs(r) == spec_expr(s@, p as int),
        r matches Scan::Hit(_, q) ==> p < q <= s.len(),
    decreases s@.len() - p, 3int,
{
    match partial_expr(s, p) {
        Scan::Hit(t, p1) => expr_tail(s, p1, t),
        Scan::Miss => Scan::Miss,
        Scan::Fail(at) => Scan::Fail(at),
    }
}

/// The whole query: optional whitespace, one expression chain, optional
/// whitespace, end of input. `Ok` carries the parsed tree; `Err` carries
/// the offset of the error, with unconsumed trailing input and empty input
/// both errors.
pub open spec fn spec_query(s: Seq<char>) -> Result<TermModel, int> {
    let p0 = skip_space(s, 0);
    match spec_expr(s, p0) {
        Step::Hit(t, p1) => {
            let p2 = skip_space(s, p1);
            if p2 == s.len() {
                Ok(t)
            } else {
                Err(p2)
            }
        },
        Step::Miss => Err(p0),
        Step::Fail(at) => Err(at),
    }
}

/// Parses a whole query string into a `Term` tree, returning exactly what
/// the grammar (`spec_query`) prescribes: the parsed tree on success, and
/// the offending character offset on any malformed, empty or trailing
/// input.
pub fn query(input: &str) -> (r: Result<Term, ParseError>)
    ensures
        match spec_query(input@) {
            Ok(t) => r matches Ok(tree) && tree@ == t,
            Err(pos) => r matches Err(e) && e.position as int == pos,
        },
{
    let s = chars_of(input);
    let p0 = space(&s, 0);
    match expr(&s, p0) {
        Scan::Hit(t, p1) => {
            let p2 = space(&s, p1);
            if p2 == s.len() {
                Ok(t)
            } else {
                Err(ParseError { position: p2 })
            }
        },
        Scan::Miss => Err(ParseError { position: p0 }),
        Scan::Fail(at) => Err(ParseError { position: at }),
    }
}

} // verus!
