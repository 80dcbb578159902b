//! Data model: expressions, patterns, values, environment frames and thunk
//! cells, together with their ghost models and views.
//!
//! Environment frames and thunk cells live in arenas (vectors) owned by the
//! interpreter; values, closures and thunks refer to them by index. A frame's
//! parent always has a smaller index than the frame itself, so lookup along a
//! parent chain terminates, while the values stored in frames may point
//! forward (this is what lets top-level declarations refer to each other).
use vstd::prelude::*;

verus! {

broadcast use vstd::seq::group_seq_axioms, vstd::std_specs::vec::group_vec_axioms;

/// Operators with one operand.
#[derive(Clone, Copy, Debug)]
pub enum UnaryOp {
    /// Integer negation.
    Negate,
    /// Boolean negation.
    Not,
}

/// Operators with two operands.
#[derive(Clone, Copy, Debug)]
pub enum BinOp {
    Plus,
    Minus,
    Times,
    Divide,
    Modulo,
    And,
    Or,
    Xor,
    Equal,
    NotEqual,
    LessThan,
    LessThanEqual,
    GreaterThan,
    GreaterThanEqual,
}

/// Ghost model of a runtime value.
pub enum ValueS {
    Int(i64),
    Bool(bool),
    Char(char),
    Str(Seq<char>),
    Tuple(Seq<ValueS>),
    Boxed(Box<ValueS>),
    /// A closure: parameter pattern, body, captured environment.
    Function(MatchS, Box<ExprS>, Option<int>),
    /// Index of a thunk cell in the interpreter's thunk arena.
    Thunk(int),
    Error(Seq<char>),
}

/// Ghost model of a pattern.
pub enum MatchS {
    Ident(Seq<char>),
    Wildcard,
    Value(Box<ValueS>),
    Tuple(Seq<MatchS>),
}

/// Ghost model of an expression.
pub enum ExprS {
    Unary(UnaryOp, Box<ExprS>),
    Binary(Box<ExprS>, BinOp, Box<ExprS>),
    Literal(ValueS),
    If(Box<ExprS>, Box<ExprS>, Box<ExprS>),
    Variable(Seq<char>),
    Let(MatchS, Box<ExprS>, Box<ExprS>),
    Fn_(MatchS, Box<ExprS>),
    FnApp(Box<ExprS>, Box<ExprS>),
    Match(Box<ExprS>, Seq<(MatchS, ExprS)>),
    Delayed(MatchS, Box<ExprS>, Box<ExprS>),
    Boxed(Box<ExprS>),
}

/// Ghost model of a top-level declaration.
pub enum DeclS {
    Expression(Seq<char>, ExprS),
}

/// Ghost model of a whole program.
pub enum ProgS {
    Binary(ExprS, Seq<DeclS>),
    Library(Seq<DeclS>),
}

/// Ghost model of one environment frame.
pub struct FrameS {
    pub name: Seq<char>,
    pub value: ValueS,
    pub parent: Option<int>,
}

/// Ghost model of a thunk cell.
pub enum ThunkCellS {
    /// Expression to evaluate, index of the frame owning the thunk, and the
    /// environment captured at creation.
    Unevaluated(ExprS, int, Option<int>),
    /// Sentinel installed while the thunk is being forced; forcing a thunk in
    /// this state is a cyclic use.
    Evaluating,
    /// Memoized result.
    Forced(ValueS),
}

/// A runtime value.
#[derive(Debug)]
pub enum Value {
    Int(i64),
    Bool(bool),
    Char(char),
    Str(String),
    Tuple(Vec<Value>),
    Boxed(Box<Value>),
    /// A closure: parameter pattern, body, captured environment.
    Function(Match, Box<Expr>, Option<usize>),
    /// Index of a thunk cell in the interpreter's thunk arena.
    Thunk(usize),
    Error(String),
}

/// A pattern describing a shape to bind against.
#[derive(Debug)]
pub enum Match {
    /// Unconditional bind of the whole scrutinee to the name.
    Ident(String),
    /// Always matches, binds nothing.
    Wildcard,
    /// Matches exactly the values structurally equal to the given one.
    Value(Box<Value>),
    /// Matches tuples of the same length whose components match.
    Tuple(Vec<Match>),
}

/// An expression of the language.
#[derive(Debug)]
pub enum Expr {
    Unary(UnaryOp, Box<Expr>),
    Binary(Box<Expr>, BinOp, Box<Expr>),
    /// An already-evaluated value embedded in the tree.
    Literal(Value),
    If(Box<Expr>, Box<Expr>, Box<Expr>),
    Variable(String),
    Let(Match, Box<Expr>, Box<Expr>),
    Fn_(Match, Box<Expr>),
    /// Application; also tuple indexing when the function position
    /// evaluates to an integer.
    FnApp(Box<Expr>, Box<Expr>),
    Match(Box<Expr>, Vec<(Match, Expr)>),
    /// Like `Let`, but the bound expression is evaluated lazily on first use.
    Delayed(Match, Box<Expr>, Box<Expr>),
    Boxed(Box<Expr>),
}

/// A top-level declaration binding a name to an expression.
#[derive(Debug)]
pub enum Decl {
    Expression(String, Expr),
}

/// A parsed program: either a binary with a `main` expression, or a library.
#[derive(Debug)]
pub enum Prog {
    Binary(Expr, Vec<Decl>),
    Library(Vec<Decl>),
}

/// One environment frame: a single binding and a parent link.
#[derive(Debug)]
pub struct Frame {
    pub name: String,
    pub value: Value,
    pub parent: Option<usize>,
}

/// A memoizing thunk cell.
#[derive(Debug)]
pub enum ThunkCell {
    Unevaluated(Expr, usize, Option<usize>),
    Evaluating,
    Forced(Value),
}

/// Model of an environment reference: `None` is the empty root environment.
pub open spec fn env_view(env: Option<usize>) -> Option<int> {
    match env {
        Some(i) => Some(i as int),
        None => None,
    }
}

/// Model of a runtime value.
pub open spec fn value_view(v: Value) -> ValueS
    decreases v,
{
    match v {
        Value::Int(i) => ValueS::Int(i),
        Value::Bool(b) => ValueS::Bool(b),
        Value::Char(c) => ValueS::Char(c),
        Value::Str(s) => ValueS::Str(s@),
        Value::Tuple(vs) => ValueS::Tuple(values_view(vs@)),
        Value::Boxed(b) => ValueS::Boxed(Box::new(value_view(*b))),
        Value::Function(p, body, env) => ValueS::Function(
            match_view(p),
            Box::new(expr_view(*body)),
            env_view(env),
        ),
        Value::Thunk(id) => ValueS::Thunk(id as int),
        Value::Error(m) => ValueS::Error(m@),
    }
}

/// Elementwise model of a sequence of values.
pub open spec fn values_view(s: Seq<Value>) -> Seq<ValueS>
    decreases s,
{
    if s.len() == 0 {
        Seq::empty()
    } else {
        values_view(s.subrange(0, s.len() - 1)).push(value_view(s[s.len() - 1]))
    }
}

/// Model of a pattern.
pub open spec fn match_view(p: Match) -> MatchS
    decreases p,
{
    match p {
        Match::Ident(n) => MatchS::Ident(n@),
        Match::Wildcard => MatchS::Wildcard,
        Match::Value(v) => MatchS::Value(Box::new(value_view(*v))),
        Match::Tuple(ps) => MatchS::Tuple(matches_view(ps@)),
    }
}

/// Elementwise model of a sequence of patterns.
pub open spec fn matches_view(s: Seq<Match>) -> Seq<MatchS>
    decreases s,
{
    if s.len() == 0 {
        Seq::empty()
    } else {
        matches_view(s.subrange(0, s.len() - 1)).push(match_view(s[s.len() - 1]))
    }
}

/// Model of an expression.
pub open spec fn expr_view(e: Expr) -> ExprS
    decreases e,
{
    match e {
        Expr::Unary(op, a) => ExprS::Unary(op, Box::new(expr_view(*a))),
        Expr::Binary(a, op, b) => ExprS::Binary(
            Box::new(expr_view(*a)),
            op,
            Box::new(expr_view(*b)),
        ),
        Expr::Literal(v) => ExprS::Literal(value_view(v)),
        Expr::If(c, t, els) => ExprS::If(
            Box::new(expr_view(*c)),
            Box::new(expr_view(*t)),
            Box::new(expr_view(*els)),
        ),
        Expr::Variable(n) => ExprS::Variable(n@),
        Expr::Let(p, v, b) => ExprS::Let(match_view(p), Box::new(expr_view(*v)), Box::new(expr_view(*b))),
        Expr::Fn_(p, b) => ExprS::Fn_(match_view(p), Box::new(expr_view(*b))),
        Expr::FnApp(f, a) => ExprS::FnApp(Box::new(expr_view(*f)), Box::new(expr_view(*a))),
        Expr::Match(s, arms) => ExprS::Match(Box::new(expr_view(*s)), arms_view(arms@)),
        Expr::Delayed(p, v, b) => ExprS::Delayed(
            match_view(p),
            Box::new(expr_view(*v)),
            Box::new(expr_view(*b)),
        ),
        Expr::Boxed(e) => ExprS::Boxed(Box::new(expr_view(*e))),
    }
}

/// Elementwise model of a sequence of match arms.
pub open spec fn arms_view(s: Seq<(Match, Expr)>) -> Seq<(MatchS, ExprS)>
    decreases s,
{
    if s.len() == 0 {
        Seq::empty()
    } else {
        arms_view(s.subrange(0, s.len() - 1)).push(
            (match_view(s[s.len() - 1].0), expr_view(s[s.len() - 1].1)),
        )
    }
}

/// The elementwise model keeps length and maps each element.
pub broadcast proof fn lemma_values_view(s: Seq<Value>)
    ensures
        (#[trigger] values_view(s)).len() == s.len(),
        forall|i: int| 0 <= i < s.len() ==> values_view(s)[i] == value_view(s[i]),
    decreases s.len(),
{
    if s.len() > 0 {
        lemma_values_view(s.subrange(0, s.len() - 1));
        assert forall|i: int| 0 <= i < s.len() implies values_view(s)[i] == value_view(s[i]) by {
            if i < s.len() - 1 {
                assert(s.subrange(0, s.len() - 1)[i] == s[i]);
            }
        }
    }
}

/// The elementwise model keeps length and maps each element.
pub broadcast proof fn lemma_matches_view(s: Seq<Match>)
    ensures
        (#[trigger] matches_view(s)).len() == s.len(),
        forall|i: int| 0 <= i < s.len() ==> matches_view(s)[i] == match_view(s[i]),
    decreases s.len(),
{
    if s.len() > 0 {
        lemma_matches_view(s.subrange(0, s.len() - 1));
        assert forall|i: int| 0 <= i < s.len() implies matches_view(s)[i] == match_view(s[i]) by {
            if i < s.len() - 1 {
                assert(s.subrange(0, s.len() - 1)[i] == s[i]);
            }
        }
    }
}

/// The elementwise model keeps length and maps each arm.
pub broadcast proof fn lemma_arms_view(s: Seq<(Match, Expr)>)
    ensures
        (#[trigger] arms_view(s)).len() == s.len(),
        forall|i: int| 0 <= i < s.len() ==> arms_view(s)[i] == (
            match_view(s[i].0),
            expr_view(s[i].1),
        ),
    decreases s.len(),
{
    if s.len() > 0 {
        lemma_arms_view(s.subrange(0, s.len() - 1));
        assert forall|i: int| 0 <= i < s.len() implies arms_view(s)[i] == (
            match_view(s[i].0),
            expr_view(s[i].1),
        ) by {
            if i < s.len() - 1 {
                assert(s.subrange(0, s.len() - 1)[i] == s[i]);
            }
        }
    }
}

impl View for Value {
    type V = ValueS;

    open spec fn view(&self) -> ValueS {
        value_view(*self)
    }
}

impl View for Match {
    type V = MatchS;

    open spec fn view(&self) -> MatchS {
        match_view(*self)
    }
}

impl View for Expr {
    type V = ExprS;

    open spec fn view(&self) -> ExprS {
        expr_view(*self)
    }
}

impl View for Decl {
    type V = DeclS;

    open spec fn view(&self) -> DeclS {
        match self {
            Decl::Expression(name, e) => DeclS::Expression(name@, e@),
        }
    }
}

/// Elementwise model of a declaration list.
pub open spec fn decls_view(s: Seq<Decl>) -> Seq<DeclS> {
    Seq::new(s.len(), |i: int| s[i]@)
}

impl View for Prog {
    type V = ProgS;

    open spec fn view(&self) -> ProgS {
        match self {
            Prog::Binary(main, decls) => ProgS::Binary(main@, decls_view(decls@)),
            Prog::Library(decls) => ProgS::Library(decls_view(decls@)),
        }
    }
}

impl View for Frame {
    type V = FrameS;

    open spec fn view(&self) -> FrameS {
        FrameS { name: self.name@, value: self.value@, parent: env_view(self.parent) }
    }
}

impl View for ThunkCell {
    type V = ThunkCellS;

    open spec fn view(&self) -> ThunkCellS {
        match self {
            ThunkCell::Unevaluated(e, site, captured) => ThunkCellS::Unevaluated(
                e@,
                *site as int,
                env_view(*captured),
            ),
            ThunkCell::Evaluating => ThunkCellS::Evaluating,
            ThunkCell::Forced(v) => ThunkCellS::Forced(v@),
        }
    }
}

impl Value {
    /// Deep copy; the copy has the same model.
    #[verifier::loop_isolation(false)]
    pub fn dup(&self) -> (r: Value)
        ensures
            r@ == self@,
        decreases *self,
    {
        match self {
            Value::Int(i) => Value::Int(*i),
            Value::Bool(b) => Value::Bool(*b),
            Value::Char(c) => Value::Char(*c),
            Value::Str(s) => Value::Str(s.clone()),
            Value::Tuple(vs) => {
                let mut out: Vec<Value> = Vec::new();
                let mut i: usize = 0;
                while i < vs.len()
                    invariant
                        i <= vs.len(),
                        out@.len() == i,
                        forall|j: int| 0 <= j < i ==> value_view(out@[j]) == value_view(vs@[j]),
                    decreases vs.len() - i,
                {
                    out.push(vs[i].dup());
                    i = i + 1;
                }
                proof {
                    lemma_values_view(out@);
                    lemma_values_view(vs@);
                    assert(values_view(out@) =~= values_view(vs@));
                }
                Value::Tuple(out)
            },
            Value::Boxed(b) => Value::Boxed(Box::new((**b).dup())),
            Value::Function(p, body, env) => Value::Function(
                p.dup(),
                Box::new((**body).dup()),
                *env,
            ),
            Value::Thunk(id) => Value::Thunk(*id),
            Value::Error(m) => Value::Error(m.clone()),
        }
    }
}

impl Match {
    /// Deep copy; the copy has the same model.
    #[verifier::loop_isolation(false)]
    pub fn dup(&self) -> (r: Match)
        ensures
            r@ == self@,
        decreases *self,
    {
        match self {
            Match::Ident(n) => Match::Ident(n.clone()),
            Match::Wildcard => Match::Wildcard,
            Match::Value(v) => Match::Value(Box::new((**v).dup())),
            Match::Tuple(ps) => {
                let mut out: Vec<Match> = Vec::new();
                let mut i: usize = 0;
                while i < ps.len()
                    invariant
                        i <= ps.len(),
                        out@.len() == i,
                        forall|j: int| 0 <= j < i ==> match_view(out@[j]) == match_view(ps@[j]),
                    decreases ps.len() - i,
                {
                    out.push(ps[i].dup());
                    i = i + 1;
                }
                proof {
                    lemma_matches_view(out@);
                    lemma_matches_view(ps@);
                    assert(matches_view(out@) =~= matches_view(ps@));
                }
                Match::Tuple(out)
            },
        }
    }
}

impl Expr {
    /// Deep copy; the copy has the same model.
    #[verifier::loop_isolation(false)]
    pub fn dup(&self) -> (r: Expr)
        ensures
            r@ == self@,
        decreases *self,
    {
        match self {
            Expr::Unary(op, a) => Expr::Unary(*op, Box::new((**a).dup())),
            Expr::Binary(a, op, b) => Expr::Binary(
                Box::new((**a).dup()),
                *op,
                Box::new((**b).dup()),
            ),
            Expr::Literal(v) => Expr::Literal(v.dup()),
            Expr::If(c, t, e) => Expr::If(
                Box::new((**c).dup()),
                Box::new((**t).dup()),
                Box::new((**e).dup()),
            ),
            Expr::Variable(n) => Expr::Variable(n.clone()),
            Expr::Let(p, v, b) => Expr::Let(p.dup(), Box::new((**v).dup()), Box::new((**b).dup())),
            Expr::Fn_(p, b) => Expr::Fn_(p.dup(), Box::new((**b).dup())),
            Expr::FnApp(f, a) => Expr::FnApp(Box::new((**f).dup()), Box::new((**a).dup())),
            Expr::Match(s, arms) => {
                let mut out: Vec<(Match, Expr)> = Vec::new();
                let mut i: usize = 0;
                while i < arms.len()
                    invariant
                        i <= arms.len(),
                        out@.len() == i,
                        forall|j: int| 0 <= j < i ==> match_view(out@[j].0) == match_view(
                            arms@[j].0,
                        ) && expr_view(out@[j].1) == expr_view(arms@[j].1),
                    decreases arms.len() - i,
                {
                    out.push((arms[i].0.dup(), arms[i].1.dup()));
                    i = i + 1;
                }
                proof {
                    lemma_arms_view(out@);
                    lemma_arms_view(arms@);
                    assert(arms_view(out@) =~= arms_view(arms@));
                }
                Expr::Match(Box::new((**s).dup()), out)
            },
            Expr::Delayed(p, v, b) => Expr::Delayed(
                p.dup(),
                Box::new((**v).dup()),
                Box::new((**b).dup()),
            ),
            Expr::Boxed(e) => Expr::Boxed(Box::new((**e).dup())),
        }
    }
}

impl Expr {
    /// An integer literal.
    pub fn integer(value: i64) -> (r: Expr)
        ensures
            r@ == ExprS::Literal(ValueS::Int(value)),
    {
        proof {
            assert(value_view(Value::Int(value)) == ValueS::Int(value));
        }
        Expr::Literal(Value::Int(value))
    }

    /// A boolean literal.
    pub fn bool(value: bool) -> (r: Expr)
        ensures
            r@ == ExprS::Literal(ValueS::Bool(value)),
    {
        proof {
            assert(value_view(Value::Bool(value)) == ValueS::Bool(value));
        }
        Expr::Literal(Value::Bool(value))
    }

    /// An embedded, already-evaluated value.
    pub fn literal(value: Value) -> (r: Expr)
        ensures
            r@ == ExprS::Literal(value@),
    {
        Expr::Literal(value)
    }

    /// A variable reference.
    pub fn variable(ident: &str) -> (r: Expr)
        ensures
            r@ == ExprS::Variable(ident@),
    {
        Expr::Variable(ident.to_owned())
    }

    /// A unary operator application.
    pub fn unary(op: UnaryOp, a: Expr) -> (r: Expr)
        ensures
            r@ == ExprS::Unary(op, Box::new(a@)),
    {
        Expr::Unary(op, Box::new(a))
    }

    /// A binary operator application.
    pub fn binary(a: Expr, op: BinOp, b: Expr) -> (r: Expr)
        ensures
            r@ == ExprS::Binary(Box::new(a@), op, Box::new(b@)),
    {
        Expr::Binary(Box::new(a), op, Box::new(b))
    }

    /// The sum of two expressions.
    pub fn plus(a: Expr, b: Expr) -> (r: Expr)
        ensures
            r@ == ExprS::Binary(Box::new(a@), BinOp::Plus, Box::new(b@)),
    {
        Expr::Binary(Box::new(a), BinOp::Plus, Box::new(b))
    }

    /// The negation of an expression.
    pub fn negate(a: Expr) -> (r: Expr)
        ensures
            r@ == ExprS::Unary(UnaryOp::Negate, Box::new(a@)),
    {
        Expr::Unary(UnaryOp::Negate, Box::new(a))
    }

    /// A conditional.
    pub fn if_expr(cond: Expr, then_e: Expr, else_e: Expr) -> (r: Expr)
        ensures
            r@ == ExprS::If(Box::new(cond@), Box::new(then_e@), Box::new(else_e@)),
    {
        Expr::If(Box::new(cond), Box::new(then_e), Box::new(else_e))
    }

    /// A let binding.
    pub fn let_expr(pattern: Match, value: Expr, inner: Expr) -> (r: Expr)
        ensures
            r@ == ExprS::Let(pattern@, Box::new(value@), Box::new(inner@)),
    {
        Expr::Let(pattern, Box::new(value), Box::new(inner))
    }

    /// A function literal.
    pub fn fn_expr(param: Match, body: Expr) -> (r: Expr)
        ensures
            r@ == ExprS::Fn_(param@, Box::new(body@)),
    {
        Expr::Fn_(param, Box::new(body))
    }

    /// An application.
    pub fn fn_app(function: Expr, arg: Expr) -> (r: Expr)
        ensures
            r@ == ExprS::FnApp(Box::new(function@), Box::new(arg@)),
    {
        Expr::FnApp(Box::new(function), Box::new(arg))
    }

    /// A match over ordered arms.
    pub fn match_(value: Expr, arms: Vec<(Match, Expr)>) -> (r: Expr)
        ensures
            r@ == ExprS::Match(Box::new(value@), arms_view(arms@)),
    {
        Expr::Match(Box::new(value), arms)
    }

    /// A lazy binding.
    pub fn delayed(pattern: Match, value: Expr, inner: Expr) -> (r: Expr)
        ensures
            r@ == ExprS::Delayed(pattern@, Box::new(value@), Box::new(inner@)),
    {
        Expr::Delayed(pattern, Box::new(value), Box::new(inner))
    }

    /// A boxing expression.
    pub fn boxed(inner: Expr) -> (r: Expr)
        ensures
            r@ == ExprS::Boxed(Box::new(inner@)),
    {
        Expr::Boxed(Box::new(inner))
    }

    /// A tuple literal: the components must already be values.
    pub fn tuple(items: Vec<Value>) -> (r: Expr)
        ensures
            r@ == ExprS::Literal(ValueS::Tuple(values_view(items@))),
    {
        proof {
            assert(value_view(Value::Tuple(items)) == ValueS::Tuple(values_view(items@)));
        }
        Expr::Literal(Value::Tuple(items))
    }
}

impl Match {
    /// A pattern binding the whole scrutinee to a name.
    pub fn ident(name: &str) -> (r: Match)
        ensures
            r@ == MatchS::Ident(name@),
    {
        Match::Ident(name.to_owned())
    }

    /// The pattern that always matches and binds nothing.
    pub fn wildcard() -> (r: Match)
        ensures
            r@ == MatchS::Wildcard,
    {
        Match::Wildcard
    }

    /// A pattern matching exactly the values structurally equal to `v`.
    pub fn value(v: Value) -> (r: Match)
        ensures
            r@ == MatchS::Value(Box::new(v@)),
    {
        Match::Value(Box::new(v))
    }

    /// A pattern matching exactly one integer.
    pub fn integer(value: i64) -> (r: Match)
        ensures
            r@ == MatchS::Value(Box::new(ValueS::Int(value))),
    {
        proof {
            assert(value_view(Value::Int(value)) == ValueS::Int(value));
        }
        Match::Value(Box::new(Value::Int(value)))
    }

    /// A pattern matching tuples componentwise.
    pub fn tuple(patterns: Vec<Match>) -> (r: Match)
        ensures
            r@ == MatchS::Tuple(matches_view(patterns@)),
    {
        Match::Tuple(patterns)
    }
}

} // verus!
