//! The trigger language as a parsing-expression grammar, written as spec
//! functions over sequences of characters.
//!
//! Each production takes the input and a start position and yields the
//! parsed construct together with the position just past it, or `None` when
//! the input does not match. Choices are ordered, as in any
//! parsing-expression grammar, so every input has exactly one outcome.
//!
//! Shape of the language:
//!
//! - `file` is one or more `trigger` declarations and nothing else;
//! - `trigger` is `trigger <ident> { <body> } ;`;
//! - `body` is one or more fields `on:`, `description:`, `condition:`,
//!   `action:`; `on` and `description` must both be present, and when a
//!   field is declared twice the last occurrence wins;
//! - `expr` is an atom optionally continued by `&&`, `||`, or by a second
//!   expression with no operator at all, which counts as a conjunction;
//!   the continuation is parsed as a whole `expr`, so chains associate to
//!   the right and the two operators have no relative precedence;
//! - an atom is `!atom`, `(expr)`, a comparison, a function call, or a bare
//!   identifier. A bare identifier directly followed by `:` is refused, so
//!   the implicit-conjunction rule cannot swallow the next field of the
//!   enclosing trigger.

use vstd::prelude::*;
use crate::ast::ComparisonOp;
use crate::ast::ComparisonSpec;
use crate::ast::ExprSpec;
use crate::ast::FuncCallSpec;
use crate::ast::TriggerSpec;
use crate::ast::ValueSpec;

verus! {

/// Whitespace accepted between any two tokens.
pub open spec fn is_ws(c: char) -> bool {
    c == ' ' || c == '\t' || c == '\n' || c == '\r'
}

/// Characters that may open an identifier.
pub open spec fn is_ident_start(c: char) -> bool {
    ('a' <= c && c <= 'z') || ('A' <= c && c <= 'Z') || c == '_'
}

pub open spec fn is_digit(c: char) -> bool {
    '0' <= c && c <= '9'
}

/// Characters that may continue an identifier; `.` joins path segments
/// such as `player.score`.
pub open spec fn is_ident_char(c: char) -> bool {
    is_ident_start(c) || is_digit(c) || c == '.'
}

/// First position at or after `i` holding no whitespace.
pub open spec fn skip_ws(s: Seq<char>, i: nat) -> nat
    decreases s.len() - i,
{
    if i < s.len() && is_ws(s[i as int]) {
        skip_ws(s, (i + 1) as nat)
    } else {
        i
    }
}

/// The literal `w` occurs at position `i` of `s`.
pub open spec fn lit_at(s: Seq<char>, i: nat, w: Seq<char>) -> bool {
    i + w.len() <= s.len() && s.subrange(i as int, (i + w.len()) as int) == w
}

/// The literal `w` occurs at `i` and ends at a word boundary, so a keyword
/// does not match a mere prefix of a longer identifier.
pub open spec fn word_at(s: Seq<char>, i: nat, w: Seq<char>) -> bool {
    lit_at(s, i, w) && (i + w.len() == s.len() || !is_ident_char(s[(i + w.len()) as int]))
}

/// Guard used by the recursive productions: a sub-parse that ended at `j`
/// made progress from `i` and stayed inside the input. Every parse below
/// satisfies it, and checking it makes termination of the grammar evident.
pub open spec fn steps(s: Seq<char>, i: nat, j: nat) -> bool {
    i < j && j <= s.len()
}

pub open spec fn kw_trigger() -> Seq<char> {
    "trigger"@
}

pub open spec fn kw_on() -> Seq<char> {
    "on"@
}

pub open spec fn kw_description() -> Seq<char> {
    "description"@
}

pub open spec fn kw_condition() -> Seq<char> {
    "condition"@
}

pub open spec fn kw_action() -> Seq<char> {
    "action"@
}

pub open spec fn kw_true() -> Seq<char> {
    "true"@
}

pub open spec fn kw_false() -> Seq<char> {
    "false"@
}

/// End of the identifier-character run that starts at `i`.
pub open spec fn ident_end(s: Seq<char>, i: nat) -> nat
    decreases s.len() - i,
{
    if i < s.len() && is_ident_char(s[i as int]) {
        ident_end(s, (i + 1) as nat)
    } else {
        i
    }
}

/// `ident := ident_start ident_char*`, returned as its lexeme.
pub open spec fn ident(s: Seq<char>, i: nat) -> Option<(Seq<char>, nat)> {
    if i < s.len() && is_ident_start(s[i as int]) {
        let j = ident_end(s, i);
        Some((s.subrange(i as int, j as int), j))
    } else {
        None
    }
}

/// End of the digit run that starts at `i`.
pub open spec fn digits_end(s: Seq<char>, i: nat) -> nat
    decreases s.len() - i,
{
    if i < s.len() && is_digit(s[i as int]) {
        digits_end(s, (i + 1) as nat)
    } else {
        i
    }
}

/// `number := digit+ ("." digit+)?`, kept as its textual lexeme.
pub open spec fn number(s: Seq<char>, i: nat) -> Option<(Seq<char>, nat)> {
    if i < s.len() && is_digit(s[i as int]) {
        let j = digits_end(s, i);
        if j < s.len() && s[j as int] == '.' && j + 1 < s.len() && is_digit(s[(j + 1) as int]) {
            let k = digits_end(s, (j + 1) as nat);
            Some((s.subrange(i as int, k as int), k))
        } else {
            Some((s.subrange(i as int, j as int), j))
        }
    } else {
        None
    }
}

/// Position of the first `"` at or after `i`, if any.
pub open spec fn string_body_end(s: Seq<char>, i: nat) -> Option<nat>
    decreases s.len() - i,
{
    if i < s.len() {
        if s[i as int] == '"' {
            Some(i)
        } else {
            string_body_end(s, (i + 1) as nat)
        }
    } else {
        None
    }
}

/// `string := '"' <any character but '"'>* '"'`, returned quote-stripped
/// and unescaped.
pub open spec fn string_lit(s: Seq<char>, i: nat) -> Option<(Seq<char>, nat)> {
    if i < s.len() && s[i as int] == '"' {
        match string_body_end(s, (i + 1) as nat) {
            Some(q) => Some((s.subrange((i + 1) as int, q as int), (q + 1) as nat)),
            None => None,
        }
    } else {
        None
    }
}

/// `boolean := "true" | "false"`, at a word boundary.
pub open spec fn boolean(s: Seq<char>, i: nat) -> Option<(bool, nat)> {
    if word_at(s, i, kw_true()) {
        Some((true, (i + kw_true().len()) as nat))
    } else if word_at(s, i, kw_false()) {
        Some((false, (i + kw_false().len()) as nat))
    } else {
        None
    }
}

/// `value := boolean | number | string | ident`.
pub open spec fn value(s: Seq<char>, i: nat) -> Option<(ValueSpec, nat)> {
    match boolean(s, i) {
        Some((b, j)) => Some((ValueSpec::Boolean(b), j)),
        None => match number(s, i) {
            Some((t, j)) => Some((ValueSpec::Number(t), j)),
            None => match string_lit(s, i) {
                Some((t, j)) => Some((ValueSpec::StringLit(t), j)),
                None => match ident(s, i) {
                    Some((t, j)) => Some((ValueSpec::Ident(t), j)),
                    None => None,
                },
            },
        },
    }
}

/// The comparison operator lexemes; the two-character ones are tried first.
pub open spec fn comparison_op(s: Seq<char>, i: nat) -> Option<(ComparisonOp, nat)> {
    if lit_at(s, i, "=="@) {
        Some((ComparisonOp::Eq, (i + 2) as nat))
    } else if lit_at(s, i, "!="@) {
        Some((ComparisonOp::Neq, (i + 2) as nat))
    } else if lit_at(s, i, ">="@) {
        Some((ComparisonOp::Gte, (i + 2) as nat))
    } else if lit_at(s, i, "<="@) {
        Some((ComparisonOp::Lte, (i + 2) as nat))
    } else if lit_at(s, i, ">"@) {
        Some((ComparisonOp::Gt, (i + 1) as nat))
    } else if lit_at(s, i, "<"@) {
        Some((ComparisonOp::Lt, (i + 1) as nat))
    } else {
        None
    }
}

/// `comparison := ident op value`.
pub open spec fn comparison(s: Seq<char>, i: nat) -> Option<(ComparisonSpec, nat)> {
    match ident(s, i) {
        Some((left, j)) => {
            let j2 = skip_ws(s, j);
            match comparison_op(s, j2) {
                Some((op, k)) => {
                    let k2 = skip_ws(s, k);
                    match value(s, k2) {
                        Some((v, m)) => Some(
                            (ComparisonSpec { left, operator: op, right: v }, m),
                        ),
                        None => None,
                    }
                },
                None => None,
            }
        },
        None => None,
    }
}

/// `arg_list := value ("," value)*`, in declaration order.
pub open spec fn arg_list(s: Seq<char>, i: nat) -> Option<(Seq<ValueSpec>, nat)>
    decreases s.len() - i,
{
    match value(s, i) {
        Some((v, j)) => if steps(s, i, j) {
            let j2 = skip_ws(s, j);
            if j2 < s.len() && s[j2 as int] == ',' {
                let k = skip_ws(s, (j2 + 1) as nat);
                if steps(s, i, k) {
                    match arg_list(s, k) {
                        Some((rest, m)) => Some((seq![v] + rest, m)),
                        None => None,
                    }
                } else {
                    None
                }
            } else {
                Some((seq![v], j))
            }
        } else {
            None
        },
        None => None,
    }
}

/// `func_call := ident "(" arg_list? ")"`.
pub open spec fn func_call(s: Seq<char>, i: nat) -> Option<(FuncCallSpec, nat)> {
    match ident(s, i) {
        Some((name, j)) => {
            let j2 = skip_ws(s, j);
            if j2 < s.len() && s[j2 as int] == '(' {
                let k = skip_ws(s, (j2 + 1) as nat);
                if k < s.len() && s[k as int] == ')' {
                    Some((FuncCallSpec { name, args: Seq::empty() }, (k + 1) as nat))
                } else {
                    match arg_list(s, k) {
                        Some((args, m)) => {
                            let m2 = skip_ws(s, m);
                            if m2 < s.len() && s[m2 as int] == ')' {
                                Some((FuncCallSpec { name, args }, (m2 + 1) as nat))
                            } else {
                                None
                            }
                        },
                        None => None,
                    }
                }
            } else {
                None
            }
        },
        None => None,
    }
}

/// `expr_atom := "!" expr_atom | "(" expr ")" | comparison | func_call
///             | ident`, with the bare-identifier case refused when a `:`
/// follows (see the module note on implicit conjunction).
pub open spec fn expr_atom(s: Seq<char>, i: nat) -> Option<(ExprSpec, nat)>
    decreases s.len() - i, 0nat,
{
    if i < s.len() && s[i as int] == '!' {
        let j = skip_ws(s, (i + 1) as nat);
        if steps(s, i, j) {
            match expr_atom(s, j) {
                Some((e, k)) => Some((ExprSpec::Not(Box::new(e)), k)),
                None => None,
            }
        } else {
            None
        }
    } else if i < s.len() && s[i as int] == '(' {
        let j = skip_ws(s, (i + 1) as nat);
        if steps(s, i, j) {
            match expr(s, j) {
                Some((e, k)) => {
                    let k2 = skip_ws(s, k);
                    if k2 < s.len() && s[k2 as int] == ')' {
                        Some((ExprSpec::Parenthesized(Box::new(e)), (k2 + 1) as nat))
                    } else {
                        None
                    }
                },
                None => None,
            }
        } else {
            None
        }
    } else {
        match comparison(s, i) {
            Some((c, j)) => Some((ExprSpec::Comparison(c), j)),
            None => match func_call(s, i) {
                Some((f, j)) => Some((ExprSpec::FuncCall(f), j)),
                None => match ident(s, i) {
                    Some((t, j)) => {
                        let j2 = skip_ws(s, j);
                        if j2 < s.len() && s[j2 as int] == ':' {
                            None
                        } else {
                            Some((ExprSpec::Ident(t), j))
                        }
                    },
                    None => None,
                },
            },
        }
    }
}

/// `expr := expr_atom (("&&" | "||") expr | expr)?` — the trailing bare
/// `expr` is the implicit conjunction of two adjacent expressions.
pub open spec fn expr(s: Seq<char>, i: nat) -> Option<(ExprSpec, nat)>
    decreases s.len() - i, 1nat,
{
    match expr_atom(s, i) {
        Some((a, j)) => {
            let j2 = skip_ws(s, j);
            if lit_at(s, j2, "&&"@) {
                let k = skip_ws(s, (j2 + 2) as nat);
                if steps(s, i, k) {
                    match expr(s, k) {
                        Some((b, m)) => Some((ExprSpec::And(Box::new(a), Box::new(b)), m)),
                        None => None,
                    }
                } else {
                    None
                }
            } else if lit_at(s, j2, "||"@) {
                let k = skip_ws(s, (j2 + 2) as nat);
                if steps(s, i, k) {
                    match expr(s, k) {
                        Some((b, m)) => Some((ExprSpec::Or(Box::new(a), Box::new(b)), m)),
                        None => None,
                    }
                } else {
                    None
                }
            } else {
                if steps(s, i, j2) {
                    match expr(s, j2) {
                        Some((b, m)) => Some((ExprSpec::And(Box::new(a), Box::new(b)), m)),
                        None => Some((a, j)),
                    }
                } else {
                    Some((a, j))
                }
            }
        },
        None => None,
    }
}

/// One field of a trigger body.
#[verifier::ext_equal]
pub enum FieldSpec {
    On(Seq<char>),
    Description(Seq<char>),
    Condition(ExprSpec),
    Action(FuncCallSpec),
}

/// `field := ("on" | "description" | "condition" | "action") ":" <payload>`.
pub open spec fn field(s: Seq<char>, i: nat) -> Option<(FieldSpec, nat)> {
    if word_at(s, i, kw_on()) {
        let j = skip_ws(s, (i + kw_on().len()) as nat);
        if j < s.len() && s[j as int] == ':' {
            let k = skip_ws(s, (j + 1) as nat);
            match ident(s, k) {
                Some((t, m)) => Some((FieldSpec::On(t), m)),
                None => None,
            }
        } else {
            None
        }
    } else if word_at(s, i, kw_description()) {
        let j = skip_ws(s, (i + kw_description().len()) as nat);
        if j < s.len() && s[j as int] == ':' {
            let k = skip_ws(s, (j + 1) as nat);
            match string_lit(s, k) {
                Some((t, m)) => Some((FieldSpec::Description(t), m)),
                None => None,
            }
        } else {
            None
        }
    } else if word_at(s, i, kw_condition()) {
        let j = skip_ws(s, (i + kw_condition().len()) as nat);
        if j < s.len() && s[j as int] == ':' {
            let k = skip_ws(s, (j + 1) as nat);
            match expr(s, k) {
                Some((e, m)) => Some((FieldSpec::Condition(e), m)),
                None => None,
            }
        } else {
            None
        }
    } else if word_at(s, i, kw_action()) {
        let j = skip_ws(s, (i + kw_action().len()) as nat);
        if j < s.len() && s[j as int] == ':' {
            let k = skip_ws(s, (j + 1) as nat);
            match func_call(s, k) {
                Some((f, m)) => Some((FieldSpec::Action(f), m)),
                None => None,
            }
        } else {
            None
        }
    } else {
        None
    }
}

/// The fields collected from one trigger body: each scalar field holds its
/// last declared occurrence, actions accumulate in order.
#[verifier::ext_equal]
pub struct FieldsSpec {
    pub on: Option<Seq<char>>,
    pub description: Option<Seq<char>>,
    pub condition: Option<ExprSpec>,
    pub actions: Seq<FuncCallSpec>,
}

/// A body holding exactly the one field `f`.
pub open spec fn fields_single(f: FieldSpec) -> FieldsSpec {
    match f {
        FieldSpec::On(t) => FieldsSpec {
            on: Some(t),
            description: None,
            condition: None,
            actions: Seq::empty(),
        },
        FieldSpec::Description(t) => FieldsSpec {
            on: None,
            description: Some(t),
            condition: None,
            actions: Seq::empty(),
        },
        FieldSpec::Condition(e) => FieldsSpec {
            on: None,
            description: None,
            condition: Some(e),
            actions: Seq::empty(),
        },
        FieldSpec::Action(fc) => FieldsSpec {
            on: None,
            description: None,
            condition: None,
            actions: seq![fc],
        },
    }
}

/// Prepend the earlier field `f` to the fields `rest` that follow it:
/// `rest` wins for the scalar fields (the last declaration counts), and an
/// action is placed before the later ones.
pub open spec fn fields_merge(f: FieldSpec, rest: FieldsSpec) -> FieldsSpec {
    match f {
        FieldSpec::On(t) => FieldsSpec {
            on: if rest.on is Some { rest.on } else { Some(t) },
            description: rest.description,
            condition: rest.condition,
            actions: rest.actions,
        },
        FieldSpec::Description(t) => FieldsSpec {
            on: rest.on,
            description: if rest.description is Some { rest.description } else { Some(t) },
            condition: rest.condition,
            actions: rest.actions,
        },
        FieldSpec::Condition(e) => FieldsSpec {
            on: rest.on,
            description: rest.description,
            condition: if rest.condition is Some { rest.condition } else { Some(e) },
            actions: rest.actions,
        },
        FieldSpec::Action(fc) => FieldsSpec {
            on: rest.on,
            description: rest.description,
            condition: rest.condition,
            actions: seq![fc] + rest.actions,
        },
    }
}

/// `trigger_body := field+`.
pub open spec fn trigger_body(s: Seq<char>, i: nat) -> Option<(FieldsSpec, nat)>
    decreases s.len() - i,
{
    match field(s, i) {
        Some((f, j)) => if steps(s, i, j) {
            let j2 = skip_ws(s, j);
            if steps(s, i, j2) {
                match trigger_body(s, j2) {
                    Some((rest, m)) => Some((fields_merge(f, rest), m)),
                    None => Some((fields_single(f), j)),
                }
            } else {
                Some((fields_single(f), j))
            }
        } else {
            None
        },
        None => None,
    }
}

/// `trigger := "trigger" ident "{" trigger_body "}" ";"`, requiring that
/// both `on` and `description` were declared — a trigger lacking either is
/// rejected here, at the grammar level.
pub open spec fn trigger(s: Seq<char>, i: nat) -> Option<(TriggerSpec, nat)> {
    if word_at(s, i, kw_trigger()) {
        let j = skip_ws(s, (i + kw_trigger().len()) as nat);
        match ident(s, j) {
            Some((name, k)) => {
                let k2 = skip_ws(s, k);
                if k2 < s.len() && s[k2 as int] == '{' {
                    let m = skip_ws(s, (k2 + 1) as nat);
                    match trigger_body(s, m) {
                        Some((fs, p)) => {
                            let p2 = skip_ws(s, p);
                            if p2 < s.len() && s[p2 as int] == '}' {
                                let q = skip_ws(s, (p2 + 1) as nat);
                                if q < s.len() && s[q as int] == ';' {
                                    match (fs.on, fs.description) {
                                        (Some(ev), Some(d)) => Some(
                                            (
                                                TriggerSpec {
                                                    name,
                                                    event_type: ev,
                                                    description: d,
                                                    condition: fs.condition,
                                                    actions: fs.actions,
                                                },
                                                (q + 1) as nat,
                                            ),
                                        ),
                                        _ => None,
                                    }
                                } else {
                                    None
                                }
                            } else {
                                None
                            }
                        },
                        None => None,
                    }
                } else {
                    None
                }
            },
            None => None,
        }
    } else {
        None
    }
}

/// `trigger+` from position `i` to the end of the input.
pub open spec fn file_from(s: Seq<char>, i: nat) -> Option<Seq<TriggerSpec>>
    decreases s.len() - i,
{
    match trigger(s, i) {
        Some((t, j)) => {
            let j2 = skip_ws(s, j);
            if j2 >= s.len() {
                Some(seq![t])
            } else {
                if steps(s, i, j2) {
                    match file_from(s, j2) {
                        Some(rest) => Some(seq![t] + rest),
                        None => None,
                    }
                } else {
                    None
                }
            }
        },
        None => None,
    }
}

/// `file := trigger+ end-of-input`: the whole language. Empty and
/// whitespace-only inputs fail, because at least one trigger is required.
pub open spec fn file(s: Seq<char>) -> Option<Seq<TriggerSpec>> {
    file_from(s, skip_ws(s, 0))
}

} // verus!
