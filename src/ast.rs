use vstd::prelude::*;

verus! {

/// A binary arithmetic operator.
#[derive(Clone, Copy, Debug, PartialEq, Eq, Structural)]
pub enum Operator {
    Plus,
    Minus,
    Multiplication,
    Division,
}

/// A comparison operator; it may only stand between the two sides of an `if`.
#[derive(Clone, Copy, Debug, PartialEq, Eq, Structural)]
pub enum CmpOperators {
    Equal,
    NotEqual,
    GreaterThen,
    LessThen,
    GreaterThenOrEqual,
    LessThenOrEqual,
}

/// A declared type. Declared types are metadata only: nothing checks them.
#[derive(Clone, Copy, Debug, PartialEq, Eq, Structural)]
pub enum Type {
    Char,
    Int8,
    Int16,
    Int32,
    Int64,
    Int,
    Float,
    Void,
    Unknown,
    Nil,
}

/// The type that a source-level type name denotes.
pub open spec fn type_of_name(name: Seq<char>) -> Type {
    if name == seq!['c', 'h', 'a', 'r'] {
        Type::Char
    } else if name == seq!['i', '8'] {
        Type::Int8
    } else if name == seq!['i', '1', '6'] {
        Type::Int16
    } else if name == seq!['i', '3', '2'] {
        Type::Int32
    } else if name == seq!['i', '6', '4'] {
        Type::Int64
    } else if name == seq!['i', 'n', 't'] {
        Type::Int
    } else if name == seq!['f', 'l', 'o', 'a', 't'] {
        Type::Float
    } else if name == seq!['n', 'i', 'l'] || name == seq!['n', 'u', 'l', 'l'] {
        Type::Nil
    } else if name == seq!['v', 'o', 'i', 'd'] {
        Type::Void
    } else {
        Type::Unknown
    }
}

/// Whether the characters of `a` are exactly those of `b`.
pub fn same_chars(a: &Vec<char>, b: &[char]) -> (r: bool)
    ensures
        r == (a@ == b@),
{
    if a.len() != b.len() {
        return false;
    }
    let mut i: usize = 0;
    while i < a.len()
        invariant
            a@.len() == b@.len(),
            0 <= i <= a@.len(),
            a@.subrange(0, i as int) == b@.subrange(0, i as int),
        decreases a@.len() - i,
    {
        if a[i] != b[i] {
            assert(a@[i as int] != b@[i as int]);
            return false;
        }
        assert(a@.subrange(0, i + 1) =~= a@.subrange(0, i as int).push(a@[i as int]));
        assert(b@.subrange(0, i + 1) =~= b@.subrange(0, i as int).push(b@[i as int]));
        i = i + 1;
    }
    assert(a@ =~= a@.subrange(0, i as int));
    assert(b@ =~= b@.subrange(0, i as int));
    true
}

impl Type {
    /// The type that a type name denotes; unknown names give `Unknown`.
    pub fn from_name(name: &Vec<char>) -> (r: Type)
        ensures
            r == type_of_name(name@),
    {
        if same_chars(name, &['c', 'h', 'a', 'r']) {
            Type::Char
        } else if same_chars(name, &['i', '8']) {
            Type::Int8
        } else if same_chars(name, &['i', '1', '6']) {
            Type::Int16
        } else if same_chars(name, &['i', '3', '2']) {
            Type::Int32
        } else if same_chars(name, &['i', '6', '4']) {
            Type::Int64
        } else if same_chars(name, &['i', 'n', 't']) {
            Type::Int
        } else if same_chars(name, &['f', 'l', 'o', 'a', 't']) {
            Type::Float
        } else if same_chars(name, &['n', 'i', 'l']) || same_chars(name, &['n', 'u', 'l', 'l']) {
            Type::Nil
        } else if same_chars(name, &['v', 'o', 'i', 'd']) {
            Type::Void
        } else {
            Type::Unknown
        }
    }
}


/// A typed function parameter.
#[derive(Clone, Debug, PartialEq)]
pub struct FuncParam {
    pub name: String,
    pub ty: Type,
}

/// An expression tree; each node owns its children.
#[derive(Debug, PartialEq)]
pub enum Expression {
    StringLiteral { val: String },
    Identifier { val: String },
    IntLiteral { val: i64 },
    BooleanLiteral { val: bool },
    /// A floating-point literal, held as its decimal text.
    FloatLiteral { val: String },
    CharLiteral { val: char },
    FunctionCall { name: Box<Expression>, params: Vec<Expression> },
    BinaryExpr { op: Operator, lhs: Box<Expression>, rhs: Box<Expression> },
    UnaryExpr { op: Operator, child: Box<Expression> },
}

/// A statement; function and `if` bodies own their statements.
#[derive(Debug, PartialEq)]
pub enum Statement {
    VariableDeclaration { name: String, value: Expression, ty: Type },
    FunctionDeclaration {
        name: String,
        params: Vec<FuncParam>,
        body: Vec<Statement>,
        return_type: Type,
    },
    IfStatement { expr1: Expression, cmp_op: CmpOperators, expr2: Expression, body: Vec<Statement> },
    Return { value: Expression },
    ExprStatement { expr: Expression },
}

/// The mathematical model of a parameter.
pub struct ParamV {
    pub name: Seq<char>,
    pub ty: Type,
}

/// The mathematical model of an expression.
pub enum ExprV {
    Str(Seq<char>),
    Ident(Seq<char>),
    Int(i64),
    Bool(bool),
    Float(Seq<char>),
    Char(char),
    Call(Box<ExprV>, Seq<ExprV>),
    Binary(Operator, Box<ExprV>, Box<ExprV>),
    Unary(Operator, Box<ExprV>),
}

/// The mathematical model of a statement.
pub enum StmtV {
    Let(Seq<char>, Type, ExprV),
    Func(Seq<char>, Seq<ParamV>, Seq<StmtV>, Type),
    If(ExprV, CmpOperators, ExprV, Seq<StmtV>),
    Return(ExprV),
    Expr(ExprV),
}

impl View for FuncParam {
    type V = ParamV;

    open spec fn view(&self) -> ParamV {
        ParamV { name: self.name@, ty: self.ty }
    }
}

pub open spec fn params_view(ps: Seq<FuncParam>) -> Seq<ParamV> {
    Seq::new(ps.len(), |i: int| ps[i]@)
}

pub open spec fn expr_view(e: Expression) -> ExprV
    decreases e,
{
    match e {
        Expression::StringLiteral { val } => ExprV::Str(val@),
        Expression::Identifier { val } => ExprV::Ident(val@),
        Expression::IntLiteral { val } => ExprV::Int(val),
        Expression::BooleanLiteral { val } => ExprV::Bool(val),
        Expression::FloatLiteral { val } => ExprV::Float(val@),
        Expression::CharLiteral { val } => ExprV::Char(val),
        Expression::FunctionCall { name, params } => ExprV::Call(
            Box::new(expr_view(*name)),
            Seq::new(params@.len(), |i: int| if 0 <= i < params@.len() { expr_view(params@[i]) } else { ExprV::Bool(false) }),
        ),
        Expression::BinaryExpr { op, lhs, rhs } => ExprV::Binary(
            op,
            Box::new(expr_view(*lhs)),
            Box::new(expr_view(*rhs)),
        ),
        Expression::UnaryExpr { op, child } => ExprV::Unary(op, Box::new(expr_view(*child))),
    }
}

pub open spec fn exprs_view(es: Seq<Expression>) -> Seq<ExprV> {
    Seq::new(es.len(), |i: int| expr_view(es[i]))
}

pub open spec fn stmt_view(s: Statement) -> StmtV
    decreases s,
{
    match s {
        Statement::VariableDeclaration { name, value, ty } => StmtV::Let(name@, ty, expr_view(value)),
        Statement::FunctionDeclaration { name, params, body, return_type } => StmtV::Func(
            name@,
            params_view(params@),
            Seq::new(body@.len(), |i: int| if 0 <= i < body@.len() { stmt_view(body@[i]) } else { StmtV::Return(ExprV::Bool(false)) }),
            return_type,
        ),
        Statement::IfStatement { expr1, cmp_op, expr2, body } => StmtV::If(
            expr_view(expr1),
            cmp_op,
            expr_view(expr2),
            Seq::new(body@.len(), |i: int| if 0 <= i < body@.len() { stmt_view(body@[i]) } else { StmtV::Return(ExprV::Bool(false)) }),
        ),
        Statement::Return { value } => StmtV::Return(expr_view(value)),
        Statement::ExprStatement { expr } => StmtV::Expr(expr_view(expr)),
    }
}

pub open spec fn stmts_view(ss: Seq<Statement>) -> Seq<StmtV> {
    Seq::new(ss.len(), |i: int| stmt_view(ss[i]))
}

impl View for Expression {
    type V = ExprV;

    open spec fn view(&self) -> ExprV {
        expr_view(*self)
    }
}

impl View for Statement {
    type V = StmtV;

    open spec fn view(&self) -> StmtV {
        stmt_view(*self)
    }
}

impl FuncParam {
    pub fn deep_clone(&self) -> (r: FuncParam)
        ensures
            r@ == self@,
    {
        FuncParam { name: self.name.clone(), ty: self.ty }
    }
}

impl Expression {
    /// A copy of the whole tree.
    #[verifier::loop_isolation(false)]
    pub fn deep_clone(&self) -> (r: Expression)
        ensures
            r@ == self@,
        decreases self,
    {
        match self {
            Expression::StringLiteral { val } => Expression::StringLiteral { val: val.clone() },
            Expression::Identifier { val } => Expression::Identifier { val: val.clone() },
            Expression::IntLiteral { val } => Expression::IntLiteral { val: *val },
            Expression::BooleanLiteral { val } => Expression::BooleanLiteral { val: *val },
            Expression::FloatLiteral { val } => Expression::FloatLiteral { val: val.clone() },
            Expression::CharLiteral { val } => Expression::CharLiteral { val: *val },
            Expression::FunctionCall { name, params } => {
                let callee = (**name).deep_clone();
                let mut args: Vec<Expression> = Vec::new();
                let mut i: usize = 0;
                while i < params.len()
                    invariant
                        0 <= i <= params@.len(),
                        args@.len() == i,
                        forall|j: int| 0 <= j < i ==> args@[j]@ == params@[j]@,
                    decreases params@.len() - i,
                {
                    proof {
                        vstd::std_specs::vec::axiom_vec_decreases_to_view(*params);
                        vstd::seq::axiom_seq_index_decreases(params@, i as int);
                    }
                    let a = params[i].deep_clone();
                    args.push(a);
                    i = i + 1;
                }
                let r = Expression::FunctionCall { name: Box::new(callee), params: args };
                assert(r@->Call_1 =~= self@->Call_1);
                r
            },
            Expression::BinaryExpr { op, lhs, rhs } => Expression::BinaryExpr {
                op: *op,
                lhs: Box::new((**lhs).deep_clone()),
                rhs: Box::new((**rhs).deep_clone()),
            },
            Expression::UnaryExpr { op, child } => Expression::UnaryExpr {
                op: *op,
                child: Box::new((**child).deep_clone()),
            },
        }
    }
}

/// A copy of each parameter, in order.
pub fn clone_params(ps: &Vec<FuncParam>) -> (r: Vec<FuncParam>)
    ensures
        params_view(r@) == params_view(ps@),
{
    let mut out: Vec<FuncParam> = Vec::new();
    let mut i: usize = 0;
    while i < ps.len()
        invariant
            0 <= i <= ps@.len(),
            out@.len() == i,
            forall|j: int| 0 <= j < i ==> out@[j]@ == ps@[j]@,
        decreases ps@.len() - i,
    {
        out.push(ps[i].deep_clone());
        i = i + 1;
    }
    assert(params_view(out@) =~= params_view(ps@));
    out
}

impl Statement {
    /// A copy of the whole statement.
    #[verifier::loop_isolation(false)]
    pub fn deep_clone(&self) -> (r: Statement)
        ensures
            r@ == self@,
        decreases self,
    {
        match self {
            Statement::VariableDeclaration { name, value, ty } => Statement::VariableDeclaration {
                name: name.clone(),
                value: value.deep_clone(),
                ty: *ty,
            },
            Statement::FunctionDeclaration { name, params, body, return_type } => {
                let mut out: Vec<Statement> = Vec::new();
                let mut i: usize = 0;
                while i < body.len()
                    invariant
                        0 <= i <= body@.len(),
                        out@.len() == i,
                        forall|j: int| 0 <= j < i ==> out@[j]@ == body@[j]@,
                    decreases body@.len() - i,
                {
                    proof {
                        vstd::std_specs::vec::axiom_vec_decreases_to_view(*body);
                        vstd::seq::axiom_seq_index_decreases(body@, i as int);
                    }
                    out.push(body[i].deep_clone());
                    i = i + 1;
                }
                let r = Statement::FunctionDeclaration {
                    name: name.clone(),
                    params: clone_params(params),
                    body: out,
                    return_type: *return_type,
                };
                assert(r@->Func_2 =~= self@->Func_2);
                r
            },
            Statement::IfStatement { expr1, cmp_op, expr2, body } => {
                let mut out: Vec<Statement> = Vec::new();
                let mut i: usize = 0;
                while i < body.len()
                    invariant
                        0 <= i <= body@.len(),
                        out@.len() == i,
                        forall|j: int| 0 <= j < i ==> out@[j]@ == body@[j]@,
                    decreases body@.len() - i,
                {
                    proof {
                        vstd::std_specs::vec::axiom_vec_decreases_to_view(*body);
                        vstd::seq::axiom_seq_index_decreases(body@, i as int);
                    }
                    out.push(body[i].deep_clone());
                    i = i + 1;
                }
                let r = Statement::IfStatement {
                    expr1: expr1.deep_clone(),
                    cmp_op: *cmp_op,
                    expr2: expr2.deep_clone(),
                    body: out,
                };
                assert(r@->If_3 =~= self@->If_3);
                r
            },
            Statement::Return { value } => Statement::Return { value: value.deep_clone() },
            Statement::ExprStatement { expr } => Statement::ExprStatement { expr: expr.deep_clone() },
        }
    }
}

/// A copy of each statement, in order.
pub fn clone_statements(ss: &Vec<Statement>) -> (r: Vec<Statement>)
    ensures
        stmts_view(r@) == stmts_view(ss@),
{
    let mut out: Vec<Statement> = Vec::new();
    let mut i: usize = 0;
    while i < ss.len()
        invariant
            0 <= i <= ss@.len(),
            out@.len() == i,
            forall|j: int| 0 <= j < i ==> out@[j]@ == ss@[j]@,
        decreases ss@.len() - i,
    {
        out.push(ss[i].deep_clone());
        i = i + 1;
    }
    assert(stmts_view(out@) =~= stmts_view(ss@));
    out
}

} // verus!
