//! The executable parser.
//!
//! Every function here is proved to return exactly what the corresponding
//! production of [`crate::grammar`] yields on the same input: the grammar is
//! the contract, and the recursive-descent code below is its implementation.

use vstd::prelude::*;
use vstd::string::StrSliceExecFns;
use crate::ast::Comparison;
use crate::ast::ComparisonOp;
use crate::ast::Expr;
use crate::ast::FuncCall;
use crate::ast::Trigger;
use crate::ast::TriggerFile;
use crate::ast::TriggerParserError;
use crate::ast::Value;
use crate::grammar;

verus! {

/// Relies on String::push from std: appends the character to the string.
pub assume_specification[ std::string::String::push ](s: &mut String, c: char)
    ensures
        final(s)@ == old(s)@.push(c),
;

/// Relies on String::push_str from std: appends the string slice.
pub assume_specification[ std::string::String::push_str ](s: &mut String, other: &str)
    ensures
        final(s)@ == old(s)@ + other@,
;

/// The length of a vector's view always fits in `usize`.
proof fn vec_len_bound(s: &Vec<char>)
    ensures
        s@.len() <= usize::MAX,
{
    broadcast use vstd::std_specs::vec::axiom_spec_len;

    assert(vstd::std_specs::vec::spec_vec_len(s) == s@.len());
}

/// The characters of `s`, in order, as a vector.
fn chars_of(s: &str) -> (r: Vec<char>)
    ensures
        r@ == s@,
{
    let n = s.unicode_len();
    let mut v: Vec<char> = Vec::new();
    let mut i: usize = 0;
    while i < n
        invariant
            i <= n,
            n == s@.len(),
            v@ == s@.subrange(0, i as int),
        decreases n - i,
    {
        let c = s.get_char(i);
        v.push(c);
        proof {
            assert(v@ =~= s@.subrange(0, (i + 1) as int));
        }
        i += 1;
    }
    proof {
        assert(v@ =~= s@);
    }
    v
}

/// The substring `s[lo..hi)`, as an owned string.
fn string_range(s: &Vec<char>, lo: usize, hi: usize) -> (r: String)
    requires
        lo <= hi <= s@.len(),
    ensures
        r@ == s@.subrange(lo as int, hi as int),
{
    let mut out = String::new();
    proof {
        assert(out@ =~= s@.subrange(lo as int, lo as int));
    }
    let mut k = lo;
    while k < hi
        invariant
            lo <= k <= hi <= s@.len(),
            out@ == s@.subrange(lo as int, k as int),
        decreases hi - k,
    {
        out.push(s[k]);
        proof {
            assert(out@ =~= s@.subrange(lo as int, (k + 1) as int));
        }
        k += 1;
    }
    out
}

fn ws_char(c: char) -> (r: bool)
    ensures
        r == grammar::is_ws(c),
{
    c == ' ' || c == '\t' || c == '\n' || c == '\r'
}

fn ident_start_char(c: char) -> (r: bool)
    ensures
        r == grammar::is_ident_start(c),
{
    ('a' <= c && c <= 'z') || ('A' <= c && c <= 'Z') || c == '_'
}

fn digit_ch(c: char) -> (r: bool)
    ensures
        r == grammar::is_digit(c),
{
    '0' <= c && c <= '9'
}

fn ident_char(c: char) -> (r: bool)
    ensures
        r == grammar::is_ident_char(c),
{
    ident_start_char(c) || digit_ch(c) || c == '.'
}

/// First position at or after `i` holding no whitespace.
fn scan_ws(s: &Vec<char>, i: usize) -> (r: usize)
    requires
        i <= s@.len(),
    ensures
        r == grammar::skip_ws(s@, i as nat),
        i <= r <= s@.len(),
{
    let mut k = i;
    while k < s.len() && ws_char(s[k])
        invariant
            i <= k <= s@.len(),
            grammar::skip_ws(s@, i as nat) == grammar::skip_ws(s@, k as nat),
        decreases s@.len() - k,
    {
        k += 1;
    }
    k
}

/// Whether the literal `w` occurs at position `i` of `s`.
fn match_lit(s: &Vec<char>, i: usize, w: &str) -> (r: bool)
    requires
        i <= s@.len(),
    ensures
        r == grammar::lit_at(s@, i as nat, w@),
{
    proof {
        vec_len_bound(s);
    }
    let n = w.unicode_len();
    if s.len() - i < n {
        return false;
    }
    let mut k: usize = 0;
    while k < n
        invariant
            k <= n,
            n == w@.len(),
            i + n <= s@.len(),
            s@.len() <= usize::MAX,
            forall|m: int| 0 <= m < k ==> s@[i + m] == w@[m],
        decreases n - k,
    {
        if s[i + k] != w.get_char(k) {
            proof {
                if grammar::lit_at(s@, i as nat, w@) {
                    assert(s@.subrange(i as int, (i + n) as int)[k as int] == s@[i + k]);
                    assert(false);
                }
            }
            return false;
        }
        k += 1;
    }
    proof {
        assert(s@.subrange(i as int, (i + n) as int) =~= w@);
    }
    true
}

/// Whether the literal `w` occurs at `i` and ends at a word boundary.
fn match_word(s: &Vec<char>, i: usize, w: &str) -> (r: bool)
    requires
        i <= s@.len(),
    ensures
        r == grammar::word_at(s@, i as nat, w@),
{
    proof {
        vec_len_bound(s);
    }
    if !match_lit(s, i, w) {
        return false;
    }
    let n = w.unicode_len();
    let j = i + n;
    if j == s.len() {
        true
    } else {
        !ident_char(s[j])
    }
}

/// `ident`, returned as its lexeme and end position.
fn parse_ident(s: &Vec<char>, i: usize) -> (r: Option<(String, usize)>)
    requires
        i <= s@.len(),
    ensures
        match r {
            Some((t, j)) => grammar::ident(s@, i as nat) == Some((t@, j as nat)) && i < j
                <= s@.len(),
            None => grammar::ident(s@, i as nat) is None,
        },
{
    if i < s.len() && ident_start_char(s[i]) {
        let mut k = i;
        while k < s.len() && ident_char(s[k])
            invariant
                i <= k <= s@.len(),
                grammar::ident_end(s@, i as nat) == grammar::ident_end(s@, k as nat),
                k == i ==> (i < s@.len() && grammar::is_ident_char(s@[i as int])),
            decreases s@.len() - k,
        {
            k += 1;
        }
        let t = string_range(s, i, k);
        Some((t, k))
    } else {
        None
    }
}

/// End of the digit run that starts at `i`.
fn scan_digits(s: &Vec<char>, i: usize) -> (r: usize)
    requires
        i <= s@.len(),
    ensures
        r == grammar::digits_end(s@, i as nat),
        i <= r <= s@.len(),
        (i < s@.len() && grammar::is_digit(s@[i as int])) ==> r > i,
{
    let mut k = i;
    while k < s.len() && digit_ch(s[k])
        invariant
            i <= k <= s@.len(),
            grammar::digits_end(s@, i as nat) == grammar::digits_end(s@, k as nat),
            (k == i && i < s@.len() && grammar::is_digit(s@[i as int])) ==> (k < s@.len()
                && grammar::is_digit(s@[k as int])),
        decreases s@.len() - k,
    {
        k += 1;
    }
    k
}

/// `number`, kept as its textual lexeme.
fn parse_number(s: &Vec<char>, i: usize) -> (r: Option<(String, usize)>)
    requires
        i <= s@.len(),
    ensures
        match r {
            Some((t, j)) => grammar::number(s@, i as nat) == Some((t@, j as nat)) && i < j
                <= s@.len(),
            None => grammar::number(s@, i as nat) is None,
        },
{
    if i < s.len() && digit_ch(s[i]) {
        let j = scan_digits(s, i);
        if j < s.len() && s[j] == '.' && j + 1 < s.len() && digit_ch(s[j + 1]) {
            let k = scan_digits(s, j + 1);
            Some((string_range(s, i, k), k))
        } else {
            Some((string_range(s, i, j), j))
        }
    } else {
        None
    }
}

/// `string`, returned quote-stripped.
fn parse_string(s: &Vec<char>, i: usize) -> (r: Option<(String, usize)>)
    requires
        i <= s@.len(),
    ensures
        match r {
            Some((t, j)) => grammar::string_lit(s@, i as nat) == Some((t@, j as nat)) && i < j
                <= s@.len(),
            None => grammar::string_lit(s@, i as nat) is None,
        },
{
    if i < s.len() && s[i] == '"' {
        let mut k = i + 1;
        while k < s.len() && s[k] != '"'
            invariant
                i + 1 <= k <= s@.len(),
                grammar::string_body_end(s@, (i + 1) as nat) == grammar::string_body_end(
                    s@,
                    k as nat,
                ),
            decreases s@.len() - k,
        {
            k += 1;
        }
        if k < s.len() {
            let t = string_range(s, i + 1, k);
            Some((t, k + 1))
        } else {
            None
        }
    } else {
        None
    }
}

/// `boolean`, at a word boundary.
fn parse_boolean(s: &Vec<char>, i: usize) -> (r: Option<(bool, usize)>)
    requires
        i <= s@.len(),
    ensures
        match r {
            Some((b, j)) => grammar::boolean(s@, i as nat) == Some((b, j as nat)) && i < j
                <= s@.len(),
            None => grammar::boolean(s@, i as nat) is None,
        },
{
    proof {
        vec_len_bound(s);
    }
    if match_word(s, i, "true") {
        proof {
            reveal_strlit("true");
        }
        Some((true, i + 4))
    } else if match_word(s, i, "false") {
        proof {
            reveal_strlit("false");
        }
        Some((false, i + 5))
    } else {
        None
    }
}

/// `value := boolean | number | string | ident`.
fn parse_value(s: &Vec<char>, i: usize) -> (r: Option<(Value, usize)>)
    requires
        i <= s@.len(),
    ensures
        match r {
            Some((v, j)) => grammar::value(s@, i as nat) == Some((v@, j as nat)) && i < j
                <= s@.len(),
            None => grammar::value(s@, i as nat) is None,
        },
{
    match parse_boolean(s, i) {
        Some((b, j)) => Some((Value::Boolean(b), j)),
        None => match parse_number(s, i) {
            Some((t, j)) => Some((Value::Number(t), j)),
            None => match parse_string(s, i) {
                Some((t, j)) => Some((Value::String(t), j)),
                None => match parse_ident(s, i) {
                    Some((t, j)) => Some((Value::Ident(t), j)),
                    None => None,
                },
            },
        },
    }
}

/// A comparison operator lexeme; the two-character ones are tried first.
fn parse_op(s: &Vec<char>, i: usize) -> (r: Option<(ComparisonOp, usize)>)
    requires
        i <= s@.len(),
    ensures
        match r {
            Some((op, j)) => grammar::comparison_op(s@, i as nat) == Some((op, j as nat)) && i < j
                <= s@.len(),
            None => grammar::comparison_op(s@, i as nat) is None,
        },
{
    proof {
        vec_len_bound(s);
    }
    if match_lit(s, i, "==") {
        proof {
            reveal_strlit("==");
        }
        Some((ComparisonOp::Eq, i + 2))
    } else if match_lit(s, i, "!=") {
        proof {
            reveal_strlit("!=");
        }
        Some((ComparisonOp::Neq, i + 2))
    } else if match_lit(s, i, ">=") {
        proof {
            reveal_strlit(">=");
        }
        Some((ComparisonOp::Gte, i + 2))
    } else if match_lit(s, i, "<=") {
        proof {
            reveal_strlit("<=");
        }
        Some((ComparisonOp::Lte, i + 2))
    } else if match_lit(s, i, ">") {
        proof {
            reveal_strlit(">");
        }
        Some((ComparisonOp::Gt, i + 1))
    } else if match_lit(s, i, "<") {
        proof {
            reveal_strlit("<");
        }
        Some((ComparisonOp::Lt, i + 1))
    } else {
        None
    }
}

/// `comparison := ident op value`.
fn parse_comparison(s: &Vec<char>, i: usize) -> (r: Option<(Comparison, usize)>)
    requires
        i <= s@.len(),
    ensures
        match r {
            Some((c, j)) => grammar::comparison(s@, i as nat) == Some((c@, j as nat)) && i < j
                <= s@.len(),
            None => grammar::comparison(s@, i as nat) is None,
        },
{
    match parse_ident(s, i) {
        Some((left, j)) => {
            let j2 = scan_ws(s, j);
            match parse_op(s, j2) {
                Some((op, k)) => {
                    let k2 = scan_ws(s, k);
                    match parse_value(s, k2) {
                        Some((v, m)) => Some((Comparison { left, operator: op, right: v }, m)),
                        None => None,
                    }
                },
                None => None,
            }
        },
        None => None,
    }
}

/// `arg_list := value ("," value)*`, in declaration order.
fn parse_arg_list(s: &Vec<char>, i: usize) -> (r: Option<(Vec<Value>, usize)>)
    requires
        i <= s@.len(),
    ensures
        match r {
            Some((vs, j)) => grammar::arg_list(s@, i as nat) == Some((vs.deep_view(), j as nat))
                && i < j <= s@.len(),
            None => grammar::arg_list(s@, i as nat) is None,
        },
    decreases s@.len() - i,
{
    match parse_value(s, i) {
        Some((v, j)) => {
            let j2 = scan_ws(s, j);
            if j2 < s.len() && s[j2] == ',' {
                let k = scan_ws(s, j2 + 1);
                match parse_arg_list(s, k) {
                    Some((rest, m)) => {
                        let ghost rest_view = rest.deep_view();
                        let mut vs = rest;
                        vs.insert(0, v);
                        proof {
                            assert(vs.deep_view() =~= seq![v@] + rest_view);
                        }
                        Some((vs, m))
                    },
                    None => None,
                }
            } else {
                let mut vs: Vec<Value> = Vec::new();
                vs.push(v);
                proof {
                    assert(vs.deep_view() =~= seq![v@]);
                }
                Some((vs, j))
            }
        },
        None => None,
    }
}

/// `func_call := ident "(" arg_list? ")"`.
fn parse_func_call(s: &Vec<char>, i: usize) -> (r: Option<(FuncCall, usize)>)
    requires
        i <= s@.len(),
    ensures
        match r {
            Some((f, j)) => grammar::func_call(s@, i as nat) == Some((f@, j as nat)) && i < j
                <= s@.len(),
            None => grammar::func_call(s@, i as nat) is None,
        },
{
    match parse_ident(s, i) {
        Some((name, j)) => {
            let j2 = scan_ws(s, j);
            if j2 < s.len() && s[j2] == '(' {
                let k = scan_ws(s, j2 + 1);
                if k < s.len() && s[k] == ')' {
                    let args: Vec<Value> = Vec::new();
                    proof {
                        assert(args.deep_view() =~= Seq::<crate::ast::ValueSpec>::empty());
                    }
                    Some((FuncCall { name, args }, k + 1))
                } else {
                    match parse_arg_list(s, k) {
                        Some((args, m)) => {
                            let m2 = scan_ws(s, m);
                            if m2 < s.len() && s[m2] == ')' {
                                Some((FuncCall { name, args }, m2 + 1))
                            } else {
                                None
                            }
                        },
                        None => None,
                    }
                }
            } else {
                None
            }
        },
        None => None,
    }
}

/// `expr_atom`, with `!` applied innermost-first and a parenthesized
/// sub-expression kept as explicit grouping.
fn parse_expr_atom(s: &Vec<char>, i: usize) -> (r: Option<(Expr, usize)>)
    requires
        i <= s@.len(),
    ensures
        match r {
            Some((e, j)) => grammar::expr_atom(s@, i as nat) == Some((e@, j as nat)) && i < j
                <= s@.len(),
            None => grammar::expr_atom(s@, i as nat) is None,
        },
    decreases s@.len() - i, 0nat,
{
    if i < s.len() && s[i] == '!' {
        let j = scan_ws(s, i + 1);
        match parse_expr_atom(s, j) {
            Some((e, k)) => Some((Expr::Not(Box::new(e)), k)),
            None => None,
        }
    } else if i < s.len() && s[i] == '(' {
        let j = scan_ws(s, i + 1);
        match parse_expr(s, j) {
            Some((e, k)) => {
                let k2 = scan_ws(s, k);
                if k2 < s.len() && s[k2] == ')' {
                    Some((Expr::Parenthesized(Box::new(e)), k2 + 1))
                } else {
                    None
                }
            },
            None => None,
        }
    } else {
        match parse_comparison(s, i) {
            Some((c, j)) => Some((Expr::Comparison(c), j)),
            None => match parse_func_call(s, i) {
                Some((f, j)) => Some((Expr::FuncCall(f), j)),
                None => match parse_ident(s, i) {
                    Some((t, j)) => {
                        let j2 = scan_ws(s, j);
                        if j2 < s.len() && s[j2] == ':' {
                            None
                        } else {
                            Some((Expr::Ident(t), j))
                        }
                    },
                    None => None,
                },
            },
        }
    }
}

/// `expr`: an atom continued by `&&`, `||`, or an adjacent expression
/// (implicit conjunction); chains associate to the right.
fn parse_expr(s: &Vec<char>, i: usize) -> (r: Option<(Expr, usize)>)
    requires
        i <= s@.len(),
    ensures
        match r {
            Some((e, j)) => grammar::expr(s@, i as nat) == Some((e@, j as nat)) && i < j
                <= s@.len(),
            None => grammar::expr(s@, i as nat) is None,
        },
    decreases s@.len() - i, 1nat,
{
    proof {
        vec_len_bound(s);
    }
    match parse_expr_atom(s, i) {
        Some((a, j)) => {
            let j2 = scan_ws(s, j);
            if match_lit(s, j2, "&&") {
                proof {
                    reveal_strlit("&&");
                }
                let k = scan_ws(s, j2 + 2);
                match parse_expr(s, k) {
                    Some((b, m)) => Some((Expr::And(Box::new(a), Box::new(b)), m)),
                    None => None,
                }
            } else if match_lit(s, j2, "||") {
                proof {
                    reveal_strlit("||");
                }
                let k = scan_ws(s, j2 + 2);
                match parse_expr(s, k) {
                    Some((b, m)) => Some((Expr::Or(Box::new(a), Box::new(b)), m)),
                    None => None,
                }
            } else {
                match parse_expr(s, j2) {
                    Some((b, m)) => Some((Expr::And(Box::new(a), Box::new(b)), m)),
                    None => Some((a, j)),
                }
            }
        },
        None => None,
    }
}

/// One field of a trigger body, before the body is assembled.
pub enum Field {
    On(String),
    Description(String),
    Condition(Expr),
    Action(FuncCall),
}

impl View for Field {
    type V = grammar::FieldSpec;

    open spec fn view(&self) -> grammar::FieldSpec {
        match self {
            Field::On(t) => grammar::FieldSpec::On(t@),
            Field::Description(t) => grammar::FieldSpec::Description(t@),
            Field::Condition(e) => grammar::FieldSpec::Condition(e@),
            Field::Action(f) => grammar::FieldSpec::Action(f@),
        }
    }
}

/// The fields collected from one trigger body.
pub struct Fields {
    pub on: Option<String>,
    pub description: Option<String>,
    pub condition: Option<Expr>,
    pub actions: Vec<FuncCall>,
}

impl View for Fields {
    type V = grammar::FieldsSpec;

    open spec fn view(&self) -> grammar::FieldsSpec {
        grammar::FieldsSpec {
            on: match &self.on {
                Some(t) => Some(t@),
                None => None,
            },
            description: match &self.description {
                Some(t) => Some(t@),
                None => None,
            },
            condition: match &self.condition {
                Some(e) => Some(e@),
                None => None,
            },
            actions: self.actions.deep_view(),
        }
    }
}

/// A body holding exactly the one field `f`.
fn fields_single(f: Field) -> (r: Fields)
    ensures
        r@ == grammar::fields_single(f@),
{
    let r = match f {
        Field::On(t) => Fields { on: Some(t), description: None, condition: None, actions: Vec::new() },
        Field::Description(t) => Fields {
            on: None,
            description: Some(t),
            condition: None,
            actions: Vec::new(),
        },
        Field::Condition(e) => Fields {
            on: None,
            description: None,
            condition: Some(e),
            actions: Vec::new(),
        },
        Field::Action(fc) => {
            let mut acts: Vec<FuncCall> = Vec::new();
            acts.push(fc);
            Fields { on: None, description: None, condition: None, actions: acts }
        },
    };
    proof {
        assert(r@ =~= grammar::fields_single(f@));
    }
    r
}

/// Prepend the earlier field `f` to the fields that follow it.
fn fields_merge(f: Field, rest: Fields) -> (r: Fields)
    ensures
        r@ == grammar::fields_merge(f@, rest@),
{
    let ghost rest_view = rest@;
    let r = match f {
        Field::On(t) => {
            let on = if rest.on.is_some() {
                rest.on
            } else {
                Some(t)
            };
            Fields {
                on,
                description: rest.description,
                condition: rest.condition,
                actions: rest.actions,
            }
        },
        Field::Description(t) => {
            let description = if rest.description.is_some() {
                rest.description
            } else {
                Some(t)
            };
            Fields { on: rest.on, description, condition: rest.condition, actions: rest.actions }
        },
        Field::Condition(e) => {
            let condition = if rest.condition.is_some() {
                rest.condition
            } else {
                Some(e)
            };
            Fields { on: rest.on, description: rest.description, condition, actions: rest.actions }
        },
        Field::Action(fc) => {
            let ghost fc_view = fc@;
            let mut acts = rest.actions;
            acts.insert(0, fc);
            proof {
                assert(acts.deep_view() =~= seq![fc_view] + rest_view.actions);
            }
            Fields { on: rest.on, description: rest.description, condition: rest.condition, actions: acts }
        },
    };
    proof {
        assert(r@ =~= grammar::fields_merge(f@, rest_view));
    }
    r
}

/// `field := ("on" | "description" | "condition" | "action") ":" <payload>`.
fn parse_field(s: &Vec<char>, i: usize) -> (r: Option<(Field, usize)>)
    requires
        i <= s@.len(),
    ensures
        match r {
            Some((f, j)) => grammar::field(s@, i as nat) == Some((f@, j as nat)) && i < j
                <= s@.len(),
            None => grammar::field(s@, i as nat) is None,
        },
{
    proof {
        vec_len_bound(s);
    }
    if match_word(s, i, "on") {
        proof {
            reveal_strlit("on");
        }
        let j = scan_ws(s, i + 2);
        if j < s.len() && s[j] == ':' {
            let k = scan_ws(s, j + 1);
            match parse_ident(s, k) {
                Some((t, m)) => Some((Field::On(t), m)),
                None => None,
            }
        } else {
            None
        }
    } else if match_word(s, i, "description") {
        proof {
            reveal_strlit("description");
        }
        let j = scan_ws(s, i + 11);
        if j < s.len() && s[j] == ':' {
            let k = scan_ws(s, j + 1);
            match parse_string(s, k) {
                Some((t, m)) => Some((Field::Description(t), m)),
                None => None,
            }
        } else {
            None
        }
    } else if match_word(s, i, "condition") {
        proof {
            reveal_strlit("condition");
        }
        let j = scan_ws(s, i + 9);
        if j < s.len() && s[j] == ':' {
            let k = scan_ws(s, j + 1);
            match parse_expr(s, k) {
                Some((e, m)) => Some((Field::Condition(e), m)),
                None => None,
            }
        } else {
            None
        }
    } else if match_word(s, i, "action") {
        proof {
            reveal_strlit("action");
        }
        let j = scan_ws(s, i + 6);
        if j < s.len() && s[j] == ':' {
            let k = scan_ws(s, j + 1);
            match parse_func_call(s, k) {
                Some((f, m)) => Some((Field::Action(f), m)),
                None => None,
            }
        } else {
            None
        }
    } else {
        None
    }
}

/// `trigger_body := field+`, assembled with the last declaration of each
/// scalar field winning and actions kept in order.
fn parse_body(s: &Vec<char>, i: usize) -> (r: Option<(Fields, usize)>)
    requires
        i <= s@.len(),
    ensures
        match r {
            Some((fs, j)) => grammar::trigger_body(s@, i as nat) == Some((fs@, j as nat)) && i < j
                <= s@.len(),
            None => grammar::trigger_body(s@, i as nat) is None,
        },
    decreases s@.len() - i,
{
    match parse_field(s, i) {
        Some((f, j)) => {
            let j2 = scan_ws(s, j);
            match parse_body(s, j2) {
                Some((rest, m)) => Some((fields_merge(f, rest), m)),
                None => Some((fields_single(f), j)),
            }
        },
        None => None,
    }
}

/// `trigger := "trigger" ident "{" trigger_body "}" ";"`, requiring `on`
/// and `description` to be present.
fn parse_trigger(s: &Vec<char>, i: usize) -> (r: Option<(Trigger, usize)>)
    requires
        i <= s@.len(),
    ensures
        match r {
            Some((t, j)) => grammar::trigger(s@, i as nat) == Some((t@, j as nat)) && i < j
                <= s@.len(),
            None => grammar::trigger(s@, i as nat) is None,
        },
{
    proof {
        vec_len_bound(s);
    }
    if match_word(s, i, "trigger") {
        proof {
            reveal_strlit("trigger");
        }
        let j = scan_ws(s, i + 7);
        match parse_ident(s, j) {
            Some((name, k)) => {
                let k2 = scan_ws(s, k);
                if k2 < s.len() && s[k2] == '{' {
                    let m = scan_ws(s, k2 + 1);
                    match parse_body(s, m) {
                        Some((fs, p)) => {
                            let p2 = scan_ws(s, p);
                            if p2 < s.len() && s[p2] == '}' {
                                let q = scan_ws(s, p2 + 1);
                                if q < s.len() && s[q] == ';' {
                                    match (fs.on, fs.description) {
                                        (Some(ev), Some(d)) => Some(
                                            (
                                                Trigger {
                                                    name,
                                                    event_type: ev,
                                                    description: d,
                                                    condition: fs.condition,
                                                    actions: fs.actions,
                                                },
                                                q + 1,
                                            ),
                                        ),
                                        _ => None,
                                    }
                                } else {
                                    None
                                }
                            } else {
                                None
                            }
                        },
                        None => None,
                    }
                } else {
                    None
                }
            },
            None => None,
        }
    } else {
        None
    }
}

/// `trigger+` up to the end of the input; on failure, the start position
/// of the declaration that did not parse.
fn parse_file_from(s: &Vec<char>, i: usize) -> (r: Result<Vec<Trigger>, usize>)
    requires
        i <= s@.len(),
    ensures
        match r {
            Ok(ts) => grammar::file_from(s@, i as nat) == Some(ts.deep_view()),
            Err(p) => grammar::file_from(s@, i as nat) is None && p <= s@.len(),
        },
    decreases s@.len() - i,
{
    match parse_trigger(s, i) {
        Some((t, j)) => {
            let j2 = scan_ws(s, j);
            if j2 >= s.len() {
                let ghost t_view = t@;
                let mut ts: Vec<Trigger> = Vec::new();
                ts.push(t);
                proof {
                    assert(ts.deep_view() =~= seq![t_view]);
                }
                Ok(ts)
            } else {
                match parse_file_from(s, j2) {
                    Ok(rest) => {
                        let ghost t_view = t@;
                        let ghost rest_view = rest.deep_view();
                        let mut ts = rest;
                        ts.insert(0, t);
                        proof {
                            assert(ts.deep_view() =~= seq![t_view] + rest_view);
                        }
                        Ok(ts)
                    },
                    Err(p) => Err(p),
                }
            }
        },
        None => Err(i),
    }
}

/// The glyph of one decimal digit.
spec fn decimal_digit(d: nat) -> char {
    if d == 0 {
        '0'
    } else if d == 1 {
        '1'
    } else if d == 2 {
        '2'
    } else if d == 3 {
        '3'
    } else if d == 4 {
        '4'
    } else if d == 5 {
        '5'
    } else if d == 6 {
        '6'
    } else if d == 7 {
        '7'
    } else if d == 8 {
        '8'
    } else {
        '9'
    }
}

/// The decimal notation of `n`, most significant digit first.
spec fn decimal(n: nat) -> Seq<char>
    decreases n,
{
    if n < 10 {
        seq![decimal_digit(n)]
    } else {
        decimal(n / 10) + seq![decimal_digit(n % 10)]
    }
}

fn render_digit(d: usize) -> (c: char)
    requires
        d < 10,
    ensures
        c == decimal_digit(d as nat),
{
    if d == 0 {
        '0'
    } else if d == 1 {
        '1'
    } else if d == 2 {
        '2'
    } else if d == 3 {
        '3'
    } else if d == 4 {
        '4'
    } else if d == 5 {
        '5'
    } else if d == 6 {
        '6'
    } else if d == 7 {
        '7'
    } else if d == 8 {
        '8'
    } else {
        '9'
    }
}

/// The decimal notation of `n`.
fn render_usize(n: usize) -> (r: String)
    ensures
        r@ == decimal(n as nat),
    decreases n,
{
    if n < 10 {
        let mut out = String::new();
        out.push(render_digit(n));
        proof {
            assert(out@ =~= decimal(n as nat));
        }
        out
    } else {
        let mut out = render_usize(n / 10);
        out.push(render_digit(n % 10));
        proof {
            assert(out@ =~= decimal(n as nat));
        }
        out
    }
}

/// The message of a syntax error first detected near character offset `p`.
fn syntax_error_message(p: usize) -> (r: String) {
    let mut out = String::new();
    out.push_str("syntax error near character offset ");
    let digits = render_usize(p);
    out.push_str(digits.as_str());
    out.push_str(": the input does not match the trigger grammar");
    out
}

/// Parse a whole source file into its abstract syntax tree.
///
/// Succeeds with the triggers, in source order, exactly when the input
/// matches [`grammar::file`]; otherwise reports a syntax error naming the
/// offset of the first declaration that failed to parse.
pub fn parse_triggers_to_ast(input: &str) -> (r: Result<TriggerFile, TriggerParserError>)
    ensures
        match r {
            Ok(tf) => grammar::file(input@) == Some(tf@),
            Err(_) => grammar::file(input@) is None,
        },
{
    let s = chars_of(input);
    let start = scan_ws(&s, 0);
    match parse_file_from(&s, start) {
        Ok(ts) => Ok(TriggerFile { triggers: ts }),
        Err(p) => Err(TriggerParserError::SyntaxError(syntax_error_message(p))),
    }
}

/// Check the input against the grammar without keeping the tree.
///
/// Accepts exactly the inputs on which [`parse_triggers_to_ast`] returns a
/// `TriggerFile`.
pub fn parse_triggers(input: &str) -> (r: Result<(), TriggerParserError>)
    ensures
        r is Ok <==> grammar::file(input@) is Some,
{
    match parse_triggers_to_ast(input) {
        Ok(_) => Ok(()),
        Err(e) => Err(e),
    }
}

/// The parser as a type, for callers that prefer a named entry point.
pub struct TriggerParser;

impl TriggerParser {
    /// Same outcome as [`parse_triggers_to_ast`].
    pub fn parse(input: &str) -> (r: Result<TriggerFile, TriggerParserError>)
        ensures
            match r {
                Ok(tf) => grammar::file(input@) == Some(tf@),
                Err(_) => grammar::file(input@) is None,
            },
    {
        parse_triggers_to_ast(input)
    }
}

} // verus!
