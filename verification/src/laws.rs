//! Properties of the grammar, proved once and for all inputs.

use vstd::prelude::*;
use crate::ast::ComparisonOp;
use crate::ast::ComparisonSpec;
use crate::ast::ValueSpec;
use crate::grammar;
use crate::render;

verus! {

/// All characters from `i` on are whitespace, so the scan reaches the end
/// of the input.
proof fn lemma_skip_ws_all(s: Seq<char>, i: nat)
    requires
        i <= s.len(),
        forall|k: int| i <= k < s.len() ==> grammar::is_ws(s[k]),
    ensures
        grammar::skip_ws(s, i) == s.len(),
    decreases s.len() - i,
{
    if i < s.len() {
        lemma_skip_ws_all(s, (i + 1) as nat);
    }
}

/// Empty input and whitespace-only input are rejected: the grammar demands
/// at least one trigger declaration, and no trigger starts at the end of
/// the input.
pub proof fn lemma_blank_input_rejected(s: Seq<char>)
    requires
        forall|k: int| 0 <= k < s.len() ==> grammar::is_ws(s[k]),
    ensures
        grammar::file(s) is None,
{
    lemma_skip_ws_all(s, 0);
    reveal_strlit("trigger");
    assert(!grammar::lit_at(s, s.len(), grammar::kw_trigger()));
    assert(grammar::trigger(s, s.len()) is None);
}

/// A parsed file holds at least one trigger.
proof fn lemma_file_from_nonempty(s: Seq<char>, i: nat)
    ensures
        match grammar::file_from(s, i) {
            Some(ts) => ts.len() >= 1,
            None => true,
        },
    decreases s.len() - i,
{
    match grammar::trigger(s, i) {
        Some((t, j)) => {
            let j2 = grammar::skip_ws(s, j);
            if j2 < s.len() && grammar::steps(s, i, j2) {
                lemma_file_from_nonempty(s, j2);
            }
        },
        None => {},
    }
}

/// A successful parse never yields an empty trigger list.
pub proof fn lemma_file_nonempty(s: Seq<char>)
    ensures
        match grammar::file(s) {
            Some(ts) => ts.len() >= 1,
            None => true,
        },
{
    lemma_file_from_nonempty(s, grammar::skip_ws(s, 0));
}

/// Each comparison-operator lexeme is read as its own operator and as no
/// other; a two-character lexeme wins over its one-character prefix.
pub proof fn lemma_operator_lexemes(s: Seq<char>, i: nat)
    ensures
        grammar::comparison_op(s, i) == Some((ComparisonOp::Eq, (i + 2) as nat)) <==> grammar::lit_at(
            s,
            i,
            "=="@,
        ),
        grammar::comparison_op(s, i) == Some((ComparisonOp::Neq, (i + 2) as nat)) <==> grammar::lit_at(
            s,
            i,
            "!="@,
        ),
        grammar::comparison_op(s, i) == Some((ComparisonOp::Gte, (i + 2) as nat)) <==> grammar::lit_at(
            s,
            i,
            ">="@,
        ),
        grammar::comparison_op(s, i) == Some((ComparisonOp::Lte, (i + 2) as nat)) <==> grammar::lit_at(
            s,
            i,
            "<="@,
        ),
        grammar::comparison_op(s, i) == Some((ComparisonOp::Gt, (i + 1) as nat)) <==> (
        grammar::lit_at(s, i, ">"@) && !grammar::lit_at(s, i, ">="@)),
        grammar::comparison_op(s, i) == Some((ComparisonOp::Lt, (i + 1) as nat)) <==> (
        grammar::lit_at(s, i, "<"@) && !grammar::lit_at(s, i, "<="@)),
{
    reveal_strlit("==");
    reveal_strlit("!=");
    reveal_strlit(">=");
    reveal_strlit("<=");
    reveal_strlit(">");
    reveal_strlit("<");
    if grammar::lit_at(s, i, "=="@) {
        assert(s.subrange(i as int, (i + 2) as int)[0] == s[i as int]);
        assert(s[i as int] == '=');
    }
    if grammar::lit_at(s, i, "!="@) {
        assert(s.subrange(i as int, (i + 2) as int)[0] == s[i as int]);
        assert(s[i as int] == '!');
    }
    if grammar::lit_at(s, i, ">="@) {
        assert(s.subrange(i as int, (i + 2) as int)[0] == s[i as int]);
        assert(s[i as int] == '>');
    }
    if grammar::lit_at(s, i, "<="@) {
        assert(s.subrange(i as int, (i + 2) as int)[0] == s[i as int]);
        assert(s[i as int] == '<');
    }
    if grammar::lit_at(s, i, ">"@) {
        assert(s.subrange(i as int, (i + 1) as int)[0] == s[i as int]);
        assert(s[i as int] == '>');
    }
    if grammar::lit_at(s, i, "<"@) {
        assert(s.subrange(i as int, (i + 1) as int)[0] == s[i as int]);
        assert(s[i as int] == '<');
    }
}

/// Rendering an operator and reading the result back yields that operator:
/// the lexeme table of `render_op` inverts `comparison_op`.
pub proof fn lemma_op_round_trip(op: ComparisonOp)
    ensures
        grammar::comparison_op(render::render_op(op), 0) == Some(
            (op, render::render_op(op).len()),
        ),
{
    reveal_strlit("==");
    reveal_strlit("!=");
    reveal_strlit(">=");
    reveal_strlit("<=");
    reveal_strlit(">");
    reveal_strlit("<");
    let w = render::render_op(op);
    match op {
        ComparisonOp::Eq => {
            assert(w.subrange(0, 2) =~= "=="@);
        },
        ComparisonOp::Neq => {
            assert(w.subrange(0, 2) =~= "!="@);
            if grammar::lit_at(w, 0, "=="@) {
                assert(w.subrange(0, 2)[0] == w[0]);
                assert(false);
            }
        },
        ComparisonOp::Gte => {
            assert(w.subrange(0, 2) =~= ">="@);
            if grammar::lit_at(w, 0, "=="@) {
                assert(w.subrange(0, 2)[0] == w[0]);
                assert(false);
            }
            if grammar::lit_at(w, 0, "!="@) {
                assert(w.subrange(0, 2)[0] == w[0]);
                assert(false);
            }
        },
        ComparisonOp::Lte => {
            assert(w.subrange(0, 2) =~= "<="@);
            if grammar::lit_at(w, 0, "=="@) {
                assert(w.subrange(0, 2)[0] == w[0]);
                assert(false);
            }
            if grammar::lit_at(w, 0, "!="@) {
                assert(w.subrange(0, 2)[0] == w[0]);
                assert(false);
            }
            if grammar::lit_at(w, 0, ">="@) {
                assert(w.subrange(0, 2)[0] == w[0]);
                assert(false);
            }
        },
        ComparisonOp::Gt => {
            assert(w.subrange(0, 1) =~= ">"@);
        },
        ComparisonOp::Lt => {
            assert(w.subrange(0, 1) =~= "<"@);
            if grammar::lit_at(w, 0, ">"@) {
                assert(w.subrange(0, 1)[0] == w[0]);
                assert(false);
            }
        },
    }
}

/// A value whose notation reads back unambiguously: a number or identifier
/// lexeme is exactly what the grammar reads from it, a string holds no
/// quote, and an identifier is not spelled like a boolean literal.
pub open spec fn wf_value(v: ValueSpec) -> bool {
    match v {
        ValueSpec::Boolean(_) => true,
        ValueSpec::Number(t) => grammar::number(t, 0) == Some((t, t.len())),
        ValueSpec::StringLit(t) => forall|k: int| 0 <= k < t.len() ==> t[k] != '"',
        ValueSpec::Ident(t) => grammar::ident(t, 0) == Some((t, t.len())) && t != "true"@ && t
            != "false"@,
    }
}

/// Every position scanned over by the identifier scan holds an identifier
/// character.
proof fn lemma_ident_end_chars(s: Seq<char>, i: nat)
    requires
        i <= s.len(),
    ensures
        i <= grammar::ident_end(s, i) <= s.len(),
        forall|k: int| i <= k < grammar::ident_end(s, i) ==> grammar::is_ident_char(s[k]),
    decreases s.len() - i,
{
    if i < s.len() && grammar::is_ident_char(s[i as int]) {
        lemma_ident_end_chars(s, (i + 1) as nat);
    }
}

/// The scan for a closing quote stops at the first one.
proof fn lemma_string_body_end_at(w: Seq<char>, i: nat, q: nat)
    requires
        i <= q < w.len(),
        w[q as int] == '"',
        forall|j: int| i <= j < q ==> w[j] != '"',
    ensures
        grammar::string_body_end(w, i) == Some(q),
    decreases q - i,
{
    if i < q {
        lemma_string_body_end_at(w, (i + 1) as nat, q);
    }
}

/// The digit scan stays inside the input, passes only digits, and stops at
/// the first character that is none.
proof fn lemma_digits_end_props(s: Seq<char>, i: nat)
    requires
        i <= s.len(),
    ensures
        i <= grammar::digits_end(s, i) <= s.len(),
        forall|k: int| i <= k < grammar::digits_end(s, i) ==> grammar::is_digit(s[k]),
        grammar::digits_end(s, i) < s.len() ==> !grammar::is_digit(
            s[grammar::digits_end(s, i) as int],
        ),
    decreases s.len() - i,
{
    if i < s.len() && grammar::is_digit(s[i as int]) {
        lemma_digits_end_props(s, (i + 1) as nat);
    }
}

/// The digit scan ends exactly where the digits do.
proof fn lemma_digits_end_stops(s: Seq<char>, i: nat, q: nat)
    requires
        i <= q <= s.len(),
        forall|k: int| i <= k < q ==> grammar::is_digit(s[k]),
        q < s.len() ==> !grammar::is_digit(s[q as int]),
    ensures
        grammar::digits_end(s, i) == q,
    decreases q - i,
{
    if i < q {
        lemma_digits_end_stops(s, (i + 1) as nat, q);
    }
}

/// The identifier scan ends exactly where the identifier characters do.
proof fn lemma_ident_end_stops(s: Seq<char>, i: nat, q: nat)
    requires
        i <= q <= s.len(),
        forall|k: int| i <= k < q ==> grammar::is_ident_char(s[k]),
        q < s.len() ==> !grammar::is_ident_char(s[q as int]),
    ensures
        grammar::ident_end(s, i) == q,
    decreases q - i,
{
    if i < q {
        lemma_ident_end_stops(s, (i + 1) as nat, q);
    }
}

/// Rendering a well-formed value and reading it back, at the end of any
/// input that closes with that rendering, yields the value and consumes the
/// input whole.
pub proof fn lemma_value_round_trip_at(w: Seq<char>, p: nat, v: ValueSpec)
    requires
        wf_value(v),
        p + render::render_value(v).len() == w.len(),
        w.subrange(p as int, w.len() as int) == render::render_value(v),
    ensures
        grammar::value(w, p) == Some((v, w.len())),
{
    reveal_strlit("true");
    reveal_strlit("false");
    reveal_strlit("\"");
    let rv = render::render_value(v);
    assert forall|k: int| 0 <= k < rv.len() implies w[p + k] == rv[k] by {
        assert(w.subrange(p as int, w.len() as int)[k] == w[p + k]);
    }
    match v {
        ValueSpec::Boolean(b) => {
            if b {
                assert(w.subrange(p as int, (p + 4) as int) =~= "true"@);
            } else {
                assert(w.subrange(p as int, (p + 5) as int) =~= "false"@);
                if grammar::lit_at(w, p, "true"@) {
                    assert(w.subrange(p as int, (p + 4) as int)[0] == w[p as int]);
                    assert(false);
                }
            }
        },
        ValueSpec::Number(t) => {
            assert(w[p as int] == t[0]);
            if grammar::lit_at(w, p, "true"@) {
                assert(w.subrange(p as int, (p + 4) as int)[0] == w[p as int]);
                assert(false);
            }
            if grammar::lit_at(w, p, "false"@) {
                assert(w.subrange(p as int, (p + 5) as int)[0] == w[p as int]);
                assert(false);
            }
            let j = grammar::digits_end(t, 0);
            lemma_digits_end_props(t, 0);
            assert forall|k: int| p <= k < p + j implies grammar::is_digit(w[k]) by {
                assert(w[k] == t[k - p]);
            }
            if j < t.len() && t[j as int] == '.' && j + 1 < t.len() && grammar::is_digit(
                t[(j + 1) as int],
            ) {
                let k2 = grammar::digits_end(t, (j + 1) as nat);
                lemma_digits_end_props(t, (j + 1) as nat);
                assert(k2 == t.len());
                assert(w[(p + j) as int] == t[j as int]);
                lemma_digits_end_stops(w, p, (p + j) as nat);
                assert(w[(p + j + 1) as int] == t[(j + 1) as int]);
                assert forall|k: int| p + j + 1 <= k < w.len() implies grammar::is_digit(
                    w[k],
                ) by {
                    assert(w[k] == t[k - p]);
                }
                lemma_digits_end_stops(w, (p + j + 1) as nat, w.len());
                assert(w.subrange(p as int, w.len() as int) == t);
            } else {
                assert(j == t.len());
                lemma_digits_end_stops(w, p, w.len());
                assert(w.subrange(p as int, w.len() as int) == t);
            }
        },
        ValueSpec::StringLit(t) => {
            assert(w.len() == p + t.len() + 2);
            assert(rv[0] == '"');
            assert(w[p as int] == '"');
            if grammar::lit_at(w, p, "true"@) {
                assert(w.subrange(p as int, (p + 4) as int)[0] == w[p as int]);
                assert(false);
            }
            if grammar::lit_at(w, p, "false"@) {
                assert(w.subrange(p as int, (p + 5) as int)[0] == w[p as int]);
                assert(false);
            }
            let q = (p + t.len() + 1) as nat;
            assert(rv[(t.len() + 1) as int] == '"');
            assert(w[q as int] == '"');
            assert forall|j: int| p + 1 <= j < q implies w[j] != '"' by {
                assert(w[j] == rv[j - p]);
                assert(rv[j - p] == t[j - p - 1]);
            }
            lemma_string_body_end_at(w, (p + 1) as nat, q);
            assert forall|k: int| 0 <= k < t.len() implies w.subrange(
                (p + 1) as int,
                q as int,
            )[k] == t[k] by {
                assert(w[p + (1 + k)] == rv[1 + k]);
                assert(rv[1 + k] == t[k]);
            }
            assert(w.subrange((p + 1) as int, q as int) =~= t);
        },
        ValueSpec::Ident(t) => {
            assert(grammar::ident_end(t, 0) == t.len());
            lemma_ident_end_chars(t, 0);
            assert forall|k: int| p <= k < w.len() implies grammar::is_ident_char(w[k]) by {
                assert(w[k] == t[k - p]);
            }
            lemma_ident_end_stops(w, p, w.len());
            assert(w[p as int] == t[0]);
            if grammar::word_at(w, p, "true"@) {
                if p + 4 == w.len() {
                    assert(w.subrange(p as int, (p + 4) as int) =~= t);
                    assert(t =~= "true"@);
                } else {
                    assert(grammar::is_ident_char(w[(p + 4) as int]));
                }
                assert(false);
            }
            if grammar::word_at(w, p, "false"@) {
                if p + 5 == w.len() {
                    assert(w.subrange(p as int, (p + 5) as int) =~= t);
                    assert(t =~= "false"@);
                } else {
                    assert(grammar::is_ident_char(w[(p + 5) as int]));
                }
                assert(false);
            }
            assert(w.subrange(p as int, w.len() as int) == t);
        },
    }
}

/// Rendering a well-formed value and reading the result back yields that
/// value, with the whole rendering consumed.
pub proof fn lemma_value_round_trip(v: ValueSpec)
    requires
        wf_value(v),
    ensures
        grammar::value(render::render_value(v), 0) == Some((v, render::render_value(v).len())),
{
    let w = render::render_value(v);
    assert(w.subrange(0, w.len() as int) =~= w);
    lemma_value_round_trip_at(w, 0, v);
}

/// A comparison whose notation reads back unambiguously: the left side is
/// exactly one identifier lexeme and the right side a well-formed value.
pub open spec fn wf_comparison(c: ComparisonSpec) -> bool {
    grammar::ident(c.left, 0) == Some((c.left, c.left.len())) && wf_value(c.right)
}

/// Rendering a well-formed comparison and reading the result back yields
/// that comparison, with the whole rendering consumed.
pub proof fn lemma_comparison_round_trip(c: ComparisonSpec)
    requires
        wf_comparison(c),
    ensures
        grammar::comparison(render::render_comparison(c), 0) == Some(
            (c, render::render_comparison(c).len()),
        ),
{
    reveal_strlit(" ");
    reveal_strlit("==");
    reveal_strlit("!=");
    reveal_strlit(">=");
    reveal_strlit("<=");
    reveal_strlit(">");
    reveal_strlit("<");
    reveal_strlit("true");
    reveal_strlit("false");
    reveal_strlit("\"");
    let t = c.left;
    let lex = render::render_op(c.operator);
    let rv = render::render_value(c.right);
    let w = render::render_comparison(c);
    let llen = t.len() as int;
    let o = llen + 1;
    let r = o + lex.len() as int;
    let vpos = r + 1;
    assert(w.len() == vpos + rv.len());
    // where each region of the rendering sits in `w`
    assert forall|k: int| 0 <= k < llen implies w[k] == t[k] by {
        assert((t + " "@)[k] == t[k]);
        assert(((t + " "@) + lex)[k] == (t + " "@)[k]);
        assert((((t + " "@) + lex) + " "@)[k] == ((t + " "@) + lex)[k]);
    }
    assert((t + " "@)[llen] == ' ');
    assert(w[llen] == ' ');
    assert forall|m: int| 0 <= m < lex.len() implies w[o + m] == lex[m] by {
        assert(((t + " "@) + lex)[o + m] == lex[m]);
        assert((((t + " "@) + lex) + " "@)[o + m] == ((t + " "@) + lex)[o + m]);
    }
    assert((((t + " "@) + lex) + " "@)[r] == ' ');
    assert(w[r] == ' ');
    assert forall|m: int| 0 <= m < rv.len() implies w[vpos + m] == rv[m] by {}
    // the identifier ends exactly at the first space
    assert(grammar::ident_end(t, 0) == t.len());
    lemma_ident_end_chars(t, 0);
    assert forall|k: int| 0 <= k < llen implies grammar::is_ident_char(w[k]) by {
        assert(w[k] == t[k]);
    }
    lemma_ident_end_stops(w, 0, t.len());
    assert(w[0] == t[0]);
    assert(grammar::ident(w, 0) == Some((w.subrange(0, llen), t.len())));
    assert(w.subrange(0, llen) =~= t);
    // the space before the operator is the only whitespace there
    assert(w[o] == lex[0]);
    assert(!grammar::is_ws(lex[0])) by {
        match c.operator {
            ComparisonOp::Eq => {},
            ComparisonOp::Neq => {},
            ComparisonOp::Gt => {},
            ComparisonOp::Lt => {},
            ComparisonOp::Gte => {},
            ComparisonOp::Lte => {},
        }
    }
    assert(grammar::skip_ws(w, o as nat) == o as nat);
    assert(grammar::skip_ws(w, t.len() as nat) == o as nat);
    // the operator is read as itself
    assert(w.subrange(o, r) =~= lex);
    match c.operator {
        ComparisonOp::Eq => {},
        ComparisonOp::Neq => {
            if grammar::lit_at(w, o as nat, "=="@) {
                assert(w.subrange(o, o + 2)[0] == w[o]);
                assert(false);
            }
        },
        ComparisonOp::Gte => {
            if grammar::lit_at(w, o as nat, "=="@) {
                assert(w.subrange(o, o + 2)[0] == w[o]);
                assert(false);
            }
            if grammar::lit_at(w, o as nat, "!="@) {
                assert(w.subrange(o, o + 2)[0] == w[o]);
                assert(false);
            }
        },
        ComparisonOp::Lte => {
            if grammar::lit_at(w, o as nat, "=="@) {
                assert(w.subrange(o, o + 2)[0] == w[o]);
                assert(false);
            }
            if grammar::lit_at(w, o as nat, "!="@) {
                assert(w.subrange(o, o + 2)[0] == w[o]);
                assert(false);
            }
            if grammar::lit_at(w, o as nat, ">="@) {
                assert(w.subrange(o, o + 2)[0] == w[o]);
                assert(false);
            }
        },
        ComparisonOp::Gt => {
            if grammar::lit_at(w, o as nat, "=="@) {
                assert(w.subrange(o, o + 2)[0] == w[o]);
                assert(false);
            }
            if grammar::lit_at(w, o as nat, "!="@) {
                assert(w.subrange(o, o + 2)[0] == w[o]);
                assert(false);
            }
            if grammar::lit_at(w, o as nat, ">="@) {
                assert(w.subrange(o, o + 2)[1] == w[o + 1]);
                assert(false);
            }
            if grammar::lit_at(w, o as nat, "<="@) {
                assert(w.subrange(o, o + 2)[0] == w[o]);
                assert(false);
            }
        },
        ComparisonOp::Lt => {
            if grammar::lit_at(w, o as nat, "=="@) {
                assert(w.subrange(o, o + 2)[0] == w[o]);
                assert(false);
            }
            if grammar::lit_at(w, o as nat, "!="@) {
                assert(w.subrange(o, o + 2)[0] == w[o]);
                assert(false);
            }
            if grammar::lit_at(w, o as nat, ">="@) {
                assert(w.subrange(o, o + 2)[0] == w[o]);
                assert(false);
            }
            if grammar::lit_at(w, o as nat, "<="@) {
                assert(w.subrange(o, o + 2)[1] == w[o + 1]);
                assert(false);
            }
            if grammar::lit_at(w, o as nat, ">"@) {
                assert(w.subrange(o, o + 1)[0] == w[o]);
                assert(false);
            }
        },
    }
    assert(grammar::comparison_op(w, o as nat) == Some((c.operator, r as nat)));
    // the space before the value is the only whitespace there
    assert(rv.len() > 0 && !grammar::is_ws(rv[0])) by {
        match c.right {
            ValueSpec::Boolean(b) => {},
            ValueSpec::Number(t2) => {},
            ValueSpec::StringLit(t2) => {},
            ValueSpec::Ident(t2) => {},
        }
    }
    assert(w[vpos] == rv[0]);
    assert(grammar::skip_ws(w, vpos as nat) == vpos as nat);
    assert(grammar::skip_ws(w, r as nat) == vpos as nat);
    // the value closes the rendering
    assert(w.subrange(vpos, w.len() as int) =~= rv);
    lemma_value_round_trip_at(w, vpos as nat, c.right);
    assert(grammar::comparison(w, 0) == Some(
        (ComparisonSpec { left: t, operator: c.operator, right: c.right }, w.len() as nat),
    ));
    assert(ComparisonSpec { left: t, operator: c.operator, right: c.right } =~= c);
}

} // verus!


