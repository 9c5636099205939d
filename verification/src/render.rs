//! Rendering an abstract syntax tree back to source notation.
//!
//! The target notation is the trigger language itself, so a rendered tree
//! can be handed back to the parser. What the executable methods build is
//! pinned down, character for character, by the spec functions below.

use vstd::prelude::*;
use crate::ast::Comparison;
use crate::ast::ComparisonOp;
use crate::ast::ComparisonSpec;
use crate::ast::Expr;
use crate::ast::ExprSpec;
use crate::ast::FuncCall;
use crate::ast::FuncCallSpec;
use crate::ast::Trigger;
use crate::ast::TriggerFile;
use crate::ast::TriggerSpec;
use crate::ast::Value;
use crate::ast::ValueSpec;

verus! {

/// The lexeme of a comparison operator.
pub open spec fn render_op(op: ComparisonOp) -> Seq<char> {
    match op {
        ComparisonOp::Eq => "=="@,
        ComparisonOp::Neq => "!="@,
        ComparisonOp::Gt => ">"@,
        ComparisonOp::Lt => "<"@,
        ComparisonOp::Gte => ">="@,
        ComparisonOp::Lte => "<="@,
    }
}

/// The notation of a value: booleans and numbers as their lexemes, strings
/// re-quoted, identifiers as themselves.
pub open spec fn render_value(v: ValueSpec) -> Seq<char> {
    match v {
        ValueSpec::Boolean(b) => if b {
            "true"@
        } else {
            "false"@
        },
        ValueSpec::Number(t) => t,
        ValueSpec::StringLit(t) => "\""@ + t + "\""@,
        ValueSpec::Ident(t) => t,
    }
}

/// `left op right`, space-separated.
pub open spec fn render_comparison(c: ComparisonSpec) -> Seq<char> {
    c.left + " "@ + render_op(c.operator) + " "@ + render_value(c.right)
}

/// Arguments joined by `, `.
pub open spec fn render_args(args: Seq<ValueSpec>) -> Seq<char>
    decreases args.len(),
{
    if args.len() == 0 {
        Seq::empty()
    } else if args.len() == 1 {
        render_value(args[0])
    } else {
        render_value(args[0]) + ", "@ + render_args(args.drop_first())
    }
}

/// `name(arguments)`.
pub open spec fn render_func_call(f: FuncCallSpec) -> Seq<char> {
    f.name + "("@ + render_args(f.args) + ")"@
}

/// A condition in source notation, with `&&`, `||`, `!` and parentheses
/// exactly where the tree has its nodes.
pub open spec fn render_expr(e: ExprSpec) -> Seq<char>
    decreases e,
{
    match e {
        ExprSpec::And(l, r) => render_expr(*l) + " && "@ + render_expr(*r),
        ExprSpec::Or(l, r) => render_expr(*l) + " || "@ + render_expr(*r),
        ExprSpec::Not(e1) => "!"@ + render_expr(*e1),
        ExprSpec::Comparison(c) => render_comparison(c),
        ExprSpec::FuncCall(f) => render_func_call(f),
        ExprSpec::Ident(t) => t,
        ExprSpec::Parenthesized(e1) => "("@ + render_expr(*e1) + ")"@,
    }
}

/// The `condition:` line of a trigger, or nothing.
pub open spec fn render_condition(c: Option<ExprSpec>) -> Seq<char> {
    match c {
        Some(e) => "    condition: "@ + render_expr(e) + "\n"@,
        None => Seq::empty(),
    }
}

/// One `action:` line per action, in order.
pub open spec fn render_actions(actions: Seq<FuncCallSpec>) -> Seq<char>
    decreases actions.len(),
{
    if actions.len() == 0 {
        Seq::empty()
    } else {
        "    action: "@ + render_func_call(actions[0]) + "\n"@ + render_actions(
            actions.drop_first(),
        )
    }
}

/// A whole trigger declaration, closed by `};`.
pub open spec fn render_trigger(t: TriggerSpec) -> Seq<char> {
    "trigger "@ + t.name + " {\n    on: "@ + t.event_type + "\n    description: \""@
        + t.description + "\"\n"@ + render_condition(t.condition) + render_actions(t.actions)
        + "};\n"@
}

/// The triggers of a file, one declaration after the other.
pub open spec fn render_file(ts: Seq<TriggerSpec>) -> Seq<char>
    decreases ts.len(),
{
    if ts.len() == 0 {
        Seq::empty()
    } else {
        render_trigger(ts[0]) + render_file(ts.drop_first())
    }
}

/// An owned copy of a string slice.
fn str_to_string(w: &str) -> (r: String)
    ensures
        r@ == w@,
{
    let mut out = String::new();
    out.push_str(w);
    proof {
        assert(out@ =~= w@);
    }
    out
}

impl ComparisonOp {
    /// The operator's lexeme.
    pub fn render(&self) -> (r: String)
        ensures
            r@ == render_op(*self),
    {
        match self {
            ComparisonOp::Eq => str_to_string("=="),
            ComparisonOp::Neq => str_to_string("!="),
            ComparisonOp::Gt => str_to_string(">"),
            ComparisonOp::Lt => str_to_string("<"),
            ComparisonOp::Gte => str_to_string(">="),
            ComparisonOp::Lte => str_to_string("<="),
        }
    }
}

impl Value {
    /// The value in source notation.
    pub fn render(&self) -> (r: String)
        ensures
            r@ == render_value(self@),
    {
        match self {
            Value::Boolean(b) => if *b {
                str_to_string("true")
            } else {
                str_to_string("false")
            },
            Value::Number(t) => t.clone(),
            Value::String(t) => {
                let mut out = str_to_string("\"");
                out.push_str(t.as_str());
                out.push_str("\"");
                proof {
                    assert(out@ =~= "\""@ + t@ + "\""@);
                }
                out
            },
            Value::Ident(t) => t.clone(),
        }
    }
}

impl Comparison {
    /// `left op right`, space-separated.
    pub fn render(&self) -> (r: String)
        ensures
            r@ == render_comparison(self@),
    {
        let mut out = self.left.clone();
        out.push_str(" ");
        let op = self.operator.render();
        out.push_str(op.as_str());
        out.push_str(" ");
        let right = self.right.render();
        out.push_str(right.as_str());
        proof {
            assert(out@ =~= render_comparison(self@));
        }
        out
    }
}

/// The arguments from index `i` on, joined by `, `.
fn render_args_from(args: &Vec<Value>, i: usize) -> (r: String)
    requires
        i <= args@.len(),
    ensures
        r@ == render_args(args.deep_view().skip(i as int)),
    decreases args@.len() - i,
{
    let ghost tail = args.deep_view().skip(i as int);
    if i == args.len() {
        let out = String::new();
        proof {
            assert(tail =~= Seq::<ValueSpec>::empty());
        }
        out
    } else if i + 1 == args.len() {
        let out = args[i].render();
        proof {
            assert(tail.len() == 1);
            assert(tail[0] == args.deep_view()[i as int]);
        }
        out
    } else {
        let mut out = args[i].render();
        out.push_str(", ");
        let rest = render_args_from(args, i + 1);
        out.push_str(rest.as_str());
        proof {
            assert(tail[0] == args.deep_view()[i as int]);
            assert(tail.drop_first() =~= args.deep_view().skip((i + 1) as int));
            assert(out@ =~= render_args(tail));
        }
        out
    }
}

impl FuncCall {
    /// `name(arguments)`.
    pub fn render(&self) -> (r: String)
        ensures
            r@ == render_func_call(self@),
    {
        let mut out = self.name.clone();
        out.push_str("(");
        let args = render_args_from(&self.args, 0);
        out.push_str(args.as_str());
        out.push_str(")");
        proof {
            assert(self.args.deep_view().skip(0) =~= self.args.deep_view());
            assert(out@ =~= render_func_call(self@));
        }
        out
    }
}

impl Expr {
    /// The condition in source notation.
    pub fn render(&self) -> (r: String)
        ensures
            r@ == render_expr(self@),
        decreases self,
    {
        match self {
            Expr::And(l, r) => {
                let mut out = l.render();
                out.push_str(" && ");
                let right = r.render();
                out.push_str(right.as_str());
                proof {
                    assert(out@ =~= render_expr(self@));
                }
                out
            },
            Expr::Or(l, r) => {
                let mut out = l.render();
                out.push_str(" || ");
                let right = r.render();
                out.push_str(right.as_str());
                proof {
                    assert(out@ =~= render_expr(self@));
                }
                out
            },
            Expr::Not(e1) => {
                let mut out = str_to_string("!");
                let inner = e1.render();
                out.push_str(inner.as_str());
                proof {
                    assert(out@ =~= render_expr(self@));
                }
                out
            },
            Expr::Comparison(c) => c.render(),
            Expr::FuncCall(f) => f.render(),
            Expr::Ident(t) => t.clone(),
            Expr::Parenthesized(e1) => {
                let mut out = str_to_string("(");
                let inner = e1.render();
                out.push_str(inner.as_str());
                out.push_str(")");
                proof {
                    assert(out@ =~= render_expr(self@));
                }
                out
            },
        }
    }
}

/// The `action:` lines from index `i` on.
fn render_actions_from(actions: &Vec<FuncCall>, i: usize) -> (r: String)
    requires
        i <= actions@.len(),
    ensures
        r@ == render_actions(actions.deep_view().skip(i as int)),
    decreases actions@.len() - i,
{
    let ghost tail = actions.deep_view().skip(i as int);
    if i == actions.len() {
        let out = String::new();
        proof {
            assert(tail =~= Seq::<FuncCallSpec>::empty());
        }
        out
    } else {
        let mut out = str_to_string("    action: ");
        let call = actions[i].render();
        out.push_str(call.as_str());
        out.push_str("\n");
        let rest = render_actions_from(actions, i + 1);
        out.push_str(rest.as_str());
        proof {
            assert(tail[0] == actions.deep_view()[i as int]);
            assert(tail.drop_first() =~= actions.deep_view().skip((i + 1) as int));
            assert(out@ =~= render_actions(tail));
        }
        out
    }
}

impl Trigger {
    /// The whole declaration, closed by `};`.
    pub fn render(&self) -> (r: String)
        ensures
            r@ == render_trigger(self@),
    {
        let mut out = str_to_string("trigger ");
        out.push_str(self.name.as_str());
        out.push_str(" {\n    on: ");
        out.push_str(self.event_type.as_str());
        out.push_str("\n    description: \"");
        out.push_str(self.description.as_str());
        out.push_str("\"\n");
        match &self.condition {
            Some(e) => {
                out.push_str("    condition: ");
                let cond = e.render();
                out.push_str(cond.as_str());
                out.push_str("\n");
            },
            None => {},
        }
        let actions = render_actions_from(&self.actions, 0);
        out.push_str(actions.as_str());
        out.push_str("};\n");
        proof {
            assert(self.actions.deep_view().skip(0) =~= self.actions.deep_view());
            assert(out@ =~= render_trigger(self@));
        }
        out
    }
}

/// The triggers from index `i` on.
fn render_file_from(ts: &Vec<Trigger>, i: usize) -> (r: String)
    requires
        i <= ts@.len(),
    ensures
        r@ == render_file(ts.deep_view().skip(i as int)),
    decreases ts@.len() - i,
{
    let ghost tail = ts.deep_view().skip(i as int);
    if i == ts.len() {
        let out = String::new();
        proof {
            assert(tail =~= Seq::<TriggerSpec>::empty());
        }
        out
    } else {
        let mut out = ts[i].render();
        let rest = render_file_from(ts, i + 1);
        out.push_str(rest.as_str());
        proof {
            assert(tail[0] == ts.deep_view()[i as int]);
            assert(tail.drop_first() =~= ts.deep_view().skip((i + 1) as int));
            assert(out@ =~= render_file(tail));
        }
        out
    }
}

impl TriggerFile {
    /// The whole file in source notation, one declaration after the other.
    pub fn render(&self) -> (r: String)
        ensures
            r@ == render_file(self@),
    {
        let out = render_file_from(&self.triggers, 0);
        proof {
            assert(self.triggers.deep_view().skip(0) =~= self.triggers.deep_view());
        }
        out
    }
}

} // verus!
