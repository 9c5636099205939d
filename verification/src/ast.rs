use vstd::prelude::*;

verus! {

/// Error reported when the input does not match the trigger grammar.
///
/// The message is human-readable and names the offset near which the
/// first unparsable trigger declaration begins.
#[derive(Debug, Clone)]
pub enum TriggerParserError {
    SyntaxError(String),
}

impl TriggerParserError {
    /// The human-readable description carried by the error.
    pub fn message(&self) -> (r: String)
        ensures
            match self {
                TriggerParserError::SyntaxError(m) => r@ == m@,
            },
    {
        match self {
            TriggerParserError::SyntaxError(m) => m.clone(),
        }
    }
}

/// Comparison operators of the trigger language.
#[derive(Debug, Clone, Copy, PartialEq, Eq, Structural)]
pub enum ComparisonOp {
    Eq,
    Neq,
    Gt,
    Lt,
    Gte,
    Lte,
}

/// A literal or identifier operand: the right side of a comparison, or a
/// function-call argument. Numbers keep their original textual lexeme.
#[derive(Debug, Clone, PartialEq)]
pub enum Value {
    Boolean(bool),
    Number(String),
    String(String),
    Ident(String),
}

/// Mathematical model of a `Value`: the same shape over sequences of
/// characters.
#[verifier::ext_equal]
pub enum ValueSpec {
    Boolean(bool),
    Number(Seq<char>),
    StringLit(Seq<char>),
    Ident(Seq<char>),
}

impl View for Value {
    type V = ValueSpec;

    open spec fn view(&self) -> ValueSpec {
        match self {
            Value::Boolean(b) => ValueSpec::Boolean(*b),
            Value::Number(t) => ValueSpec::Number(t@),
            Value::String(t) => ValueSpec::StringLit(t@),
            Value::Ident(t) => ValueSpec::Ident(t@),
        }
    }
}

impl DeepView for Value {
    type V = ValueSpec;

    open spec fn deep_view(&self) -> ValueSpec {
        self.view()
    }
}

/// A named function invocation with its ordered argument list.
#[derive(Debug, Clone, PartialEq)]
pub struct FuncCall {
    pub name: String,
    pub args: Vec<Value>,
}

/// Mathematical model of a `FuncCall`.
#[verifier::ext_equal]
pub struct FuncCallSpec {
    pub name: Seq<char>,
    pub args: Seq<ValueSpec>,
}

impl View for FuncCall {
    type V = FuncCallSpec;

    open spec fn view(&self) -> FuncCallSpec {
        FuncCallSpec { name: self.name@, args: self.args.deep_view() }
    }
}

impl DeepView for FuncCall {
    type V = FuncCallSpec;

    open spec fn deep_view(&self) -> FuncCallSpec {
        self.view()
    }
}

/// One comparison: an identifier path, an operator, and a value.
#[derive(Debug, Clone, PartialEq)]
pub struct Comparison {
    pub left: String,
    pub operator: ComparisonOp,
    pub right: Value,
}

/// Mathematical model of a `Comparison`.
#[verifier::ext_equal]
pub struct ComparisonSpec {
    pub left: Seq<char>,
    pub operator: ComparisonOp,
    pub right: ValueSpec,
}

impl View for Comparison {
    type V = ComparisonSpec;

    open spec fn view(&self) -> ComparisonSpec {
        ComparisonSpec { left: self.left@, operator: self.operator, right: self.right@ }
    }
}

/// A boolean condition over event context.
///
/// `And` and `Or` have no relative precedence and associate to the right;
/// explicit grouping is kept as `Parenthesized` rather than collapsed, so
/// the source structure survives into the tree.
#[derive(Debug, PartialEq)]
pub enum Expr {
    And(Box<Expr>, Box<Expr>),
    Or(Box<Expr>, Box<Expr>),
    Not(Box<Expr>),
    Comparison(Comparison),
    FuncCall(FuncCall),
    Ident(String),
    Parenthesized(Box<Expr>),
}

/// Mathematical model of an `Expr`.
#[verifier::ext_equal]
pub enum ExprSpec {
    And(Box<ExprSpec>, Box<ExprSpec>),
    Or(Box<ExprSpec>, Box<ExprSpec>),
    Not(Box<ExprSpec>),
    Comparison(ComparisonSpec),
    FuncCall(FuncCallSpec),
    Ident(Seq<char>),
    Parenthesized(Box<ExprSpec>),
}

/// The model of an `Expr`: the same tree over sequences of characters.
pub open spec fn view_expr(e: Expr) -> ExprSpec
    decreases e,
{
    match e {
        Expr::And(l, r) => ExprSpec::And(Box::new(view_expr(*l)), Box::new(view_expr(*r))),
        Expr::Or(l, r) => ExprSpec::Or(Box::new(view_expr(*l)), Box::new(view_expr(*r))),
        Expr::Not(e1) => ExprSpec::Not(Box::new(view_expr(*e1))),
        Expr::Comparison(c) => ExprSpec::Comparison(c@),
        Expr::FuncCall(f) => ExprSpec::FuncCall(f@),
        Expr::Ident(t) => ExprSpec::Ident(t@),
        Expr::Parenthesized(e1) => ExprSpec::Parenthesized(Box::new(view_expr(*e1))),
    }
}

impl View for Expr {
    type V = ExprSpec;

    open spec fn view(&self) -> ExprSpec {
        view_expr(*self)
    }
}

/// One rule declaration: an event binding, a description, an optional
/// condition, and the ordered actions to run when the trigger fires.
#[derive(Debug, PartialEq)]
pub struct Trigger {
    pub name: String,
    pub event_type: String,
    pub description: String,
    pub condition: Option<Expr>,
    pub actions: Vec<FuncCall>,
}

/// Mathematical model of a `Trigger`.
#[verifier::ext_equal]
pub struct TriggerSpec {
    pub name: Seq<char>,
    pub event_type: Seq<char>,
    pub description: Seq<char>,
    pub condition: Option<ExprSpec>,
    pub actions: Seq<FuncCallSpec>,
}

impl View for Trigger {
    type V = TriggerSpec;

    open spec fn view(&self) -> TriggerSpec {
        TriggerSpec {
            name: self.name@,
            event_type: self.event_type@,
            description: self.description@,
            condition: match &self.condition {
                Some(e) => Some(e@),
                None => None,
            },
            actions: self.actions.deep_view(),
        }
    }
}

impl DeepView for Trigger {
    type V = TriggerSpec;

    open spec fn deep_view(&self) -> TriggerSpec {
        self.view()
    }
}

/// The ordered triggers of one successfully parsed source file.
#[derive(Debug, PartialEq)]
pub struct TriggerFile {
    pub triggers: Vec<Trigger>,
}

impl View for TriggerFile {
    type V = Seq<TriggerSpec>;

    open spec fn view(&self) -> Seq<TriggerSpec> {
        self.triggers.deep_view()
    }
}

} // verus!
