//! AST type definitions: programs, statements, expressions, literals, and
//! the operator precedence order used by the parser.
//!
//! AST nodes are immutable, built bottom-up, and owned by the `Program`
//! that contains them. Each type has a ghost mirror (`ExprV`, `StmtV`,
//! `LitV`) over sequences of characters, computed by the `*_v` view
//! functions; all parser and evaluator contracts speak of those mirrors.

use vstd::prelude::*;

verus! {

/// An identifier, as written in the source.
#[derive(PartialEq, Debug)]
pub struct Ident(pub String);

impl View for Ident {
    type V = Seq<char>;

    open spec fn view(&self) -> Seq<char> {
        self.0@
    }
}

impl DeepView for Ident {
    type V = Seq<char>;

    open spec fn deep_view(&self) -> Seq<char> {
        self.0@
    }
}

/// Unary operators.
#[derive(PartialEq, Eq, Structural, Clone, Copy, Debug)]
pub enum Prefix {
    Plus,
    Minus,
    Not,
}

/// Binary operators.
#[derive(PartialEq, Eq, Structural, Clone, Copy, Debug)]
pub enum Infix {
    Plus,
    Minus,
    Divide,
    Multiply,
    Equal,
    Modulus,
    NotEqual,
    GreaterThanEqual,
    GreaterThan,
    LessThanEqual,
    LessThan,
}

/// The text of a unary operator, as it appears in diagnostics.
pub open spec fn prefix_sym(op: Prefix) -> Seq<char> {
    match op {
        Prefix::Plus => "+"@,
        Prefix::Minus => "-"@,
        Prefix::Not => "!"@,
    }
}

/// The text of a binary operator, as it appears in diagnostics.
pub open spec fn infix_sym(op: Infix) -> Seq<char> {
    match op {
        Infix::Plus => "+"@,
        Infix::Minus => "-"@,
        Infix::Divide => "/"@,
        Infix::Multiply => "*"@,
        Infix::Equal => "=="@,
        Infix::Modulus => "%"@,
        Infix::NotEqual => "!="@,
        Infix::GreaterThanEqual => ">="@,
        Infix::GreaterThan => ">"@,
        Infix::LessThanEqual => "<="@,
        Infix::LessThan => "<"@,
    }
}

impl Prefix {
    /// The operator's source spelling.
    pub fn symbol(&self) -> (r: &'static str)
        ensures
            r@ == prefix_sym(*self),
    {
        match self {
            Prefix::Plus => "+",
            Prefix::Minus => "-",
            Prefix::Not => "!",
        }
    }
}

impl Infix {
    /// The operator's source spelling.
    pub fn symbol(&self) -> (r: &'static str)
        ensures
            r@ == infix_sym(*self),
    {
        match self {
            Infix::Plus => "+",
            Infix::Minus => "-",
            Infix::Divide => "/",
            Infix::Multiply => "*",
            Infix::Equal => "==",
            Infix::Modulus => "%",
            Infix::NotEqual => "!=",
            Infix::GreaterThanEqual => ">=",
            Infix::GreaterThan => ">",
            Infix::LessThanEqual => "<=",
            Infix::LessThan => "<",
        }
    }
}

/// Literal expressions. Array and hash literals hold their element
/// expressions in source order.
#[derive(PartialEq, Debug)]
pub enum Literal {
    String(String),
    Int(i32),
    Bool(bool),
    Array(Vec<Expression>),
    Hash(Vec<(Expression, Expression)>),
}

/// A block: an ordered run of statements between braces.
pub type BlockStatement = Vec<Statement>;

/// Expressions.
#[derive(PartialEq, Debug)]
pub enum Expression {
    Ident(Ident),
    Literal(Literal),
    Prefix(Prefix, Box<Expression>),
    Infix(Infix, Box<Expression>, Box<Expression>),
    If {
        condition: Box<Expression>,
        consequence: BlockStatement,
        alternative: Option<BlockStatement>,
    },
    Fn {
        params: Vec<Ident>,
        body: BlockStatement,
    },
    Call {
        function: Box<Expression>,
        args: Vec<Expression>,
    },
    Index {
        left: Box<Expression>,
        index: Box<Expression>,
    },
}

/// Statements.
#[derive(PartialEq, Debug)]
pub enum Statement {
    Let(Ident, Expression),
    Return(Expression),
    Expression(Expression),
    Import(Ident),
}

/// A whole program: an ordered sequence of statements.
#[derive(PartialEq, Debug)]
pub struct Program {
    pub statements: Vec<Statement>,
}

/// Ghost mirror of [`Literal`].
pub enum LitV {
    Str(Seq<char>),
    Int(i32),
    Bool(bool),
    Array(Seq<ExprV>),
    Hash(Seq<(ExprV, ExprV)>),
}

/// Ghost mirror of [`Expression`].
pub enum ExprV {
    Ident(Seq<char>),
    Literal(LitV),
    Prefix(Prefix, Box<ExprV>),
    Infix(Infix, Box<ExprV>, Box<ExprV>),
    If {
        condition: Box<ExprV>,
        consequence: Seq<StmtV>,
        alternative: Option<Seq<StmtV>>,
    },
    Fn {
        params: Seq<Seq<char>>,
        body: Seq<StmtV>,
    },
    Call {
        function: Box<ExprV>,
        args: Seq<ExprV>,
    },
    Index {
        left: Box<ExprV>,
        index: Box<ExprV>,
    },
}

/// Ghost mirror of [`Statement`].
pub enum StmtV {
    Let(Seq<char>, ExprV),
    Return(ExprV),
    Expr(ExprV),
    Import(Seq<char>),
}

/// Views of a sequence of identifiers.
pub open spec fn idents_v(s: Seq<Ident>) -> Seq<Seq<char>> {
    Seq::new(s.len(), |i: int| s[i]@)
}

/// View of a literal.
pub open spec fn lit_v(l: Literal) -> LitV
    decreases l,
{
    match l {
        Literal::String(s) => LitV::Str(s@),
        Literal::Int(i) => LitV::Int(i),
        Literal::Bool(b) => LitV::Bool(b),
        Literal::Array(v) => LitV::Array(exprs_v(v@)),
        Literal::Hash(ps) => LitV::Hash(pairs_v(ps@)),
    }
}

/// View of an expression.
pub open spec fn expr_v(e: Expression) -> ExprV
    decreases e,
{
    match e {
        Expression::Ident(i) => ExprV::Ident(i@),
        Expression::Literal(l) => ExprV::Literal(lit_v(l)),
        Expression::Prefix(op, inner) => ExprV::Prefix(op, Box::new(expr_v(*inner))),
        Expression::Infix(op, l, r) => ExprV::Infix(
            op,
            Box::new(expr_v(*l)),
            Box::new(expr_v(*r)),
        ),
        Expression::If { condition, consequence, alternative } => ExprV::If {
            condition: Box::new(expr_v(*condition)),
            consequence: stmts_v(consequence@),
            alternative: match alternative {
                Some(b) => Some(stmts_v(b@)),
                None => None,
            },
        },
        Expression::Fn { params, body } => ExprV::Fn {
            params: idents_v(params@),
            body: stmts_v(body@),
        },
        Expression::Call { function, args } => ExprV::Call {
            function: Box::new(expr_v(*function)),
            args: exprs_v(args@),
        },
        Expression::Index { left, index } => ExprV::Index {
            left: Box::new(expr_v(*left)),
            index: Box::new(expr_v(*index)),
        },
    }
}

/// Views of a sequence of expressions, element-wise.
pub open spec fn exprs_v(s: Seq<Expression>) -> Seq<ExprV>
    decreases s,
{
    if s.len() == 0 {
        Seq::empty()
    } else {
        exprs_v(s.subrange(0, s.len() - 1)).push(expr_v(s[s.len() - 1]))
    }
}

/// Views of a sequence of hash entries, element-wise.
pub open spec fn pairs_v(s: Seq<(Expression, Expression)>) -> Seq<(ExprV, ExprV)>
    decreases s,
{
    if s.len() == 0 {
        Seq::empty()
    } else {
        pairs_v(s.subrange(0, s.len() - 1)).push(
            (expr_v(s[s.len() - 1].0), expr_v(s[s.len() - 1].1)),
        )
    }
}

/// View of a statement.
pub open spec fn stmt_v(st: Statement) -> StmtV
    decreases st,
{
    match st {
        Statement::Let(name, e) => StmtV::Let(name@, expr_v(e)),
        Statement::Return(e) => StmtV::Return(expr_v(e)),
        Statement::Expression(e) => StmtV::Expr(expr_v(e)),
        Statement::Import(name) => StmtV::Import(name@),
    }
}

/// Views of a sequence of statements, element-wise.
pub open spec fn stmts_v(s: Seq<Statement>) -> Seq<StmtV>
    decreases s,
{
    if s.len() == 0 {
        Seq::empty()
    } else {
        stmts_v(s.subrange(0, s.len() - 1)).push(stmt_v(s[s.len() - 1]))
    }
}

/// View of a whole program.
pub open spec fn program_v(p: Program) -> Seq<StmtV> {
    stmts_v(p.statements@)
}

/// `exprs_v` maps element-wise.
pub proof fn lemma_exprs_v(s: Seq<Expression>)
    ensures
        exprs_v(s).len() == s.len(),
        forall|i: int| 0 <= i < s.len() ==> exprs_v(s)[i] == expr_v(s[i]),
    decreases s.len(),
{
    if s.len() > 0 {
        lemma_exprs_v(s.subrange(0, s.len() - 1));
    }
}

/// `pairs_v` maps element-wise.
pub proof fn lemma_pairs_v(s: Seq<(Expression, Expression)>)
    ensures
        pairs_v(s).len() == s.len(),
        forall|i: int|
            0 <= i < s.len() ==> pairs_v(s)[i] == (expr_v(s[i].0), expr_v(s[i].1)),
    decreases s.len(),
{
    if s.len() > 0 {
        lemma_pairs_v(s.subrange(0, s.len() - 1));
    }
}

/// `stmts_v` maps element-wise.
pub proof fn lemma_stmts_v(s: Seq<Statement>)
    ensures
        stmts_v(s).len() == s.len(),
        forall|i: int| 0 <= i < s.len() ==> stmts_v(s)[i] == stmt_v(s[i]),
    decreases s.len(),
{
    if s.len() > 0 {
        lemma_stmts_v(s.subrange(0, s.len() - 1));
    }
}

/// Pushing onto a statement sequence pushes onto its view.
pub proof fn lemma_stmts_v_push(s: Seq<Statement>, st: Statement)
    ensures
        stmts_v(s.push(st)) == stmts_v(s).push(stmt_v(st)),
{
    assert(s.push(st).subrange(0, s.push(st).len() - 1) =~= s);
    assert(stmts_v(s.push(st)) =~= stmts_v(s).push(stmt_v(st)));
}

/// Pushing onto an expression sequence pushes onto its view.
pub proof fn lemma_exprs_v_push(s: Seq<Expression>, e: Expression)
    ensures
        exprs_v(s.push(e)) == exprs_v(s).push(expr_v(e)),
{
    assert(s.push(e).subrange(0, s.push(e).len() - 1) =~= s);
    assert(exprs_v(s.push(e)) =~= exprs_v(s).push(expr_v(e)));
}

/// Pushing onto a hash-entry sequence pushes onto its view.
pub proof fn lemma_pairs_v_push(s: Seq<(Expression, Expression)>, p: (Expression, Expression))
    ensures
        pairs_v(s.push(p)) == pairs_v(s).push((expr_v(p.0), expr_v(p.1))),
{
    assert(s.push(p).subrange(0, s.push(p).len() - 1) =~= s);
    assert(pairs_v(s.push(p)) =~= pairs_v(s).push((expr_v(p.0), expr_v(p.1))));
}

/// Operator binding strength, lowest to highest; used only to decide how
/// deep an infix, call, or index continuation binds.
#[derive(PartialEq, PartialOrd, Debug, Clone, Copy)]
pub enum Precedence {
    Lowest,
    Equals,
    LessGreater,
    Sum,
    Product,
    Prefix,
    Call,
    Index,
}

/// Numeric rank of a precedence level; the order of the levels.
pub open spec fn prec_rank(p: Precedence) -> int {
    match p {
        Precedence::Lowest => 0,
        Precedence::Equals => 1,
        Precedence::LessGreater => 2,
        Precedence::Sum => 3,
        Precedence::Product => 4,
        Precedence::Prefix => 5,
        Precedence::Call => 6,
        Precedence::Index => 7,
    }
}

impl Precedence {
    /// Strict order on precedence levels, by rank.
    pub fn lt(&self, other: &Precedence) -> (r: bool)
        ensures
            r == (prec_rank(*self) < prec_rank(*other)),
    {
        self.rank() < other.rank()
    }

    fn rank(&self) -> (r: u8)
        ensures
            r as int == prec_rank(*self),
    {
        match self {
            Precedence::Lowest => 0,
            Precedence::Equals => 1,
            Precedence::LessGreater => 2,
            Precedence::Sum => 3,
            Precedence::Product => 4,
            Precedence::Prefix => 5,
            Precedence::Call => 6,
            Precedence::Index => 7,
        }
    }
}


impl Clone for Ident {
    /// Cloning preserves the identifier text.
    fn clone(&self) -> (r: Self)
        ensures
            r@ == self@,
    {
        Ident(self.0.clone())
    }
}

/// Clones a parameter list, preserving its view.
pub fn clone_idents(v: &Vec<Ident>) -> (r: Vec<Ident>)
    ensures
        idents_v(r@) == idents_v(v@),
{
    let mut r: Vec<Ident> = Vec::new();
    let mut i: usize = 0;
    while i < v.len()
        invariant
            i <= v.len(),
            r@.len() == i,
            forall|j: int| 0 <= j < i ==> r@[j]@ == v@[j]@,
        decreases v.len() - i,
    {
        r.push(v[i].clone());
        i += 1;
    }
    proof {
        assert(idents_v(r@) =~= idents_v(v@));
    }
    r
}

impl Clone for Literal {
    /// Cloning preserves the literal's view.
    fn clone(&self) -> (r: Self)
        ensures
            lit_v(r) == lit_v(*self),
        decreases self, 0int,
    {
        match self {
            Literal::String(t) => Literal::String(t.clone()),
            Literal::Int(i) => Literal::Int(*i),
            Literal::Bool(b) => Literal::Bool(*b),
            Literal::Array(v) => Literal::Array(clone_exprs(v)),
            Literal::Hash(ps) => Literal::Hash(clone_pairs(ps)),
        }
    }
}

impl Clone for Expression {
    /// Cloning preserves the expression's view.
    fn clone(&self) -> (r: Self)
        ensures
            expr_v(r) == expr_v(*self),
        decreases self, 0int,
    {
        match self {
            Expression::Ident(i) => Expression::Ident(Ident(i.0.clone())),
            Expression::Literal(l) => Expression::Literal(l.clone()),
            Expression::Prefix(op, inner) => Expression::Prefix(
                *op,
                Box::new((**inner).clone()),
            ),
            Expression::Infix(op, l, r) => Expression::Infix(
                *op,
                Box::new((**l).clone()),
                Box::new((**r).clone()),
            ),
            Expression::If { condition, consequence, alternative } => Expression::If {
                condition: Box::new((**condition).clone()),
                consequence: clone_stmts(consequence),
                alternative: match alternative {
                    Some(b) => Some(clone_stmts(b)),
                    None => None,
                },
            },
            Expression::Fn { params, body } => Expression::Fn {
                params: clone_idents(params),
                body: clone_stmts(body),
            },
            Expression::Call { function, args } => Expression::Call {
                function: Box::new((**function).clone()),
                args: clone_exprs(args),
            },
            Expression::Index { left, index } => Expression::Index {
                left: Box::new((**left).clone()),
                index: Box::new((**index).clone()),
            },
        }
    }
}

impl Clone for Statement {
    /// Cloning preserves the statement's view.
    fn clone(&self) -> (r: Self)
        ensures
            stmt_v(r) == stmt_v(*self),
        decreases self, 0int,
    {
        match self {
            Statement::Let(name, e) => Statement::Let(Ident(name.0.clone()), e.clone()),
            Statement::Return(e) => Statement::Return(e.clone()),
            Statement::Expression(e) => Statement::Expression(e.clone()),
            Statement::Import(name) => Statement::Import(Ident(name.0.clone())),
        }
    }
}

/// Clones a sequence of expressions, preserving its view.
pub fn clone_exprs(v: &Vec<Expression>) -> (r: Vec<Expression>)
    ensures
        exprs_v(r@) == exprs_v(v@),
    decreases v@, 1int,
{
    let mut r: Vec<Expression> = Vec::new();
    let mut i: usize = 0;
    while i < v.len()
        invariant
            i <= v.len(),
            exprs_v(r@) == exprs_v(v@.subrange(0, i as int)),
        decreases v.len() - i,
    {
        let ghost prefix = r@;
        proof {
            assert(decreases_to!(v@, 1int => v@[i as int], 0int));
        }
        let c = v[i].clone();
        let ghost cg = c;
        r.push(c);
        proof {
            lemma_exprs_v_push(prefix, cg);
            assert(r@ =~= prefix.push(cg));
            assert(v@.subrange(0, i + 1).subrange(0, i as int) =~= v@.subrange(0, i as int));
            assert(exprs_v(v@.subrange(0, i + 1)) == exprs_v(v@.subrange(0, i as int)).push(
                expr_v(v@[i as int]),
            ));
        }
        i += 1;
    }
    proof {
        assert(v@.subrange(0, v@.len() as int) =~= v@);
    }
    r
}

/// Clones a sequence of statements, preserving its view.
pub fn clone_stmts(v: &Vec<Statement>) -> (r: Vec<Statement>)
    ensures
        stmts_v(r@) == stmts_v(v@),
    decreases v@, 1int,
{
    let mut r: Vec<Statement> = Vec::new();
    let mut i: usize = 0;
    while i < v.len()
        invariant
            i <= v.len(),
            stmts_v(r@) == stmts_v(v@.subrange(0, i as int)),
        decreases v.len() - i,
    {
        let ghost prefix = r@;
        proof {
            assert(decreases_to!(v@, 1int => v@[i as int], 0int));
        }
        let c = v[i].clone();
        let ghost cg = c;
        r.push(c);
        proof {
            lemma_stmts_v_push(prefix, cg);
            assert(r@ =~= prefix.push(cg));
            assert(v@.subrange(0, i + 1).subrange(0, i as int) =~= v@.subrange(0, i as int));
            assert(stmts_v(v@.subrange(0, i + 1)) == stmts_v(v@.subrange(0, i as int)).push(
                stmt_v(v@[i as int]),
            ));
        }
        i += 1;
    }
    proof {
        assert(v@.subrange(0, v@.len() as int) =~= v@);
    }
    r
}

/// Clones a sequence of hash entries, preserving its view.
pub fn clone_pairs(v: &Vec<(Expression, Expression)>) -> (r: Vec<(Expression, Expression)>)
    ensures
        pairs_v(r@) == pairs_v(v@),
    decreases v@, 1int,
{
    let mut r: Vec<(Expression, Expression)> = Vec::new();
    let mut i: usize = 0;
    while i < v.len()
        invariant
            i <= v.len(),
            pairs_v(r@) == pairs_v(v@.subrange(0, i as int)),
        decreases v.len() - i,
    {
        let ghost prefix = r@;
        proof {
            assert(decreases_to!(v@, 1int => v@[i as int], 0int));
            assert(decreases_to!(v@[i as int], 0int => v@[i as int].0, 0int));
            assert(decreases_to!(v@[i as int], 0int => v@[i as int].1, 0int));
        }
        let e = (v[i].0.clone(), v[i].1.clone());
        let ghost eg = e;
        r.push(e);
        proof {
            lemma_pairs_v_push(prefix, eg);
            assert(r@ =~= prefix.push(eg));
            assert(v@.subrange(0, i + 1).subrange(0, i as int) =~= v@.subrange(0, i as int));
            assert(pairs_v(v@.subrange(0, i + 1)) == pairs_v(v@.subrange(0, i as int)).push(
                (expr_v(v@[i as int].0), expr_v(v@[i as int].1)),
            ));
        }
        i += 1;
    }
    proof {
        assert(v@.subrange(0, v@.len() as int) =~= v@);
    }
    r
}
} // verus!
