//! The syntax tree: expressions, types, patterns and declarations, each with
//! the plain value it stands for in specifications.

use vstd::prelude::*;
use crate::token::Location;

verus! {

/// What a type is in specifications.
pub enum TypeV {
    Variable(int),
    Operator(Seq<char>, Seq<TypeV>),
}

/// What a pattern is in specifications.
pub enum PatternV {
    Number(int),
    Identifier(Seq<char>),
    Constructor(Seq<char>, Seq<PatternV>),
}

/// What an expression is in specifications: its shape, without locations.
pub enum ExprV {
    Identifier(Seq<char>),
    Number(int),
    Apply(Box<ExprV>, Box<ExprV>),
    Lambda(Seq<char>, Box<ExprV>),
    Let(Seq<(Seq<char>, ExprV)>, Box<ExprV>),
    Case(Box<ExprV>, Seq<(PatternV, ExprV)>),
}

#[derive(Clone, Copy, PartialEq, Eq, Structural, Debug)]
pub struct TypeVariable {
    pub id: isize,
}

#[derive(Debug)]
pub struct TypeOperator {
    pub name: String,
    pub types: Vec<Type>,
}

#[derive(Debug)]
pub enum Type {
    TypeVariable(TypeVariable),
    TypeOperator(TypeOperator),
}

#[derive(Debug)]
pub enum Pattern {
    NumberPattern(isize),
    IdentifierPattern(String),
    ConstructorPattern(String, Vec<Pattern>),
}

/// A node of the tree together with the place in the source where it began.
#[derive(Debug)]
pub struct Typed<T> {
    pub expr: T,
    pub location: Location,
}

#[derive(Debug)]
pub struct Alternative {
    pub pattern: Pattern,
    pub expression: Typed<Expr>,
}

#[derive(Debug)]
pub enum Expr {
    Identifier(String),
    Number(isize),
    Apply(Box<Typed<Expr>>, Box<Typed<Expr>>),
    Lambda(String, Box<Typed<Expr>>),
    Let(Vec<(String, Typed<Expr>)>, Box<Typed<Expr>>),
    Case(Box<Typed<Expr>>, Vec<Alternative>),
}

impl Type {
    pub open spec fn view(&self) -> TypeV
        decreases self,
    {
        match self {
            Type::TypeVariable(v) => TypeV::Variable(v.id as int),
            Type::TypeOperator(op) => TypeV::Operator(
                op.name@,
                Seq::new(
                    op.types@.len(),
                    |i: int|
                        if 0 <= i < op.types@.len() {
                            op.types@[i].view()
                        } else {
                            TypeV::Variable(0)
                        },
                ),
            ),
        }
    }

    /// A type variable.
    pub fn new_var(id: isize) -> (r: Type)
        ensures
            r@ == TypeV::Variable(id as int),
    {
        Type::TypeVariable(TypeVariable { id })
    }

    /// The type operator `name` applied to `types`.
    pub fn new_op(name: String, types: Vec<Type>) -> (r: Type)
        ensures
            r@ == TypeV::Operator(name@, types_view(types@)),
    {
        let r = Type::TypeOperator(TypeOperator { name, types });
        assert(r@->Operator_1 =~= types_view(types@));
        r
    }
}

/// The views of a sequence of types.
pub open spec fn types_view(types: Seq<Type>) -> Seq<TypeV> {
    Seq::new(types.len(), |i: int| types[i]@)
}

impl TypeOperator {
    pub open spec fn view(&self) -> TypeV {
        TypeV::Operator(self.name@, types_view(self.types@))
    }
}

pub proof fn lemma_operator_view(op: TypeOperator)
    ensures
        Type::TypeOperator(op)@ == op@,
{
    assert(Type::TypeOperator(op)@->Operator_1 =~= types_view(op.types@));
}

impl Pattern {
    pub open spec fn view(&self) -> PatternV
        decreases self,
    {
        match self {
            Pattern::NumberPattern(n) => PatternV::Number(*n as int),
            Pattern::IdentifierPattern(name) => PatternV::Identifier(name@),
            Pattern::ConstructorPattern(name, patterns) => PatternV::Constructor(
                name@,
                Seq::new(
                    patterns@.len(),
                    |i: int|
                        if 0 <= i < patterns@.len() {
                            patterns@[i].view()
                        } else {
                            PatternV::Number(0)
                        },
                ),
            ),
        }
    }
}

/// The views of a sequence of patterns.
pub open spec fn patterns_view(patterns: Seq<Pattern>) -> Seq<PatternV> {
    Seq::new(patterns.len(), |i: int| patterns[i]@)
}

pub proof fn lemma_constructor_pattern_view(name: String, patterns: Vec<Pattern>)
    ensures
        Pattern::ConstructorPattern(name, patterns)@ == PatternV::Constructor(
            name@,
            patterns_view(patterns@),
        ),
{
    assert(Pattern::ConstructorPattern(name, patterns)@->Constructor_1 =~= patterns_view(
        patterns@,
    ));
}

impl Expr {
    pub open spec fn view(&self) -> ExprV
        decreases self,
    {
        match self {
            Expr::Identifier(name) => ExprV::Identifier(name@),
            Expr::Number(n) => ExprV::Number(*n as int),
            Expr::Apply(f, x) => ExprV::Apply(Box::new(f.expr.view()), Box::new(x.expr.view())),
            Expr::Lambda(param, body) => ExprV::Lambda(param@, Box::new(body.expr.view())),
            Expr::Let(bindings, body) => ExprV::Let(
                Seq::new(
                    bindings@.len(),
                    |i: int|
                        if 0 <= i < bindings@.len() {
                            (bindings@[i].0@, bindings@[i].1.expr.view())
                        } else {
                            (Seq::empty(), ExprV::Number(0))
                        },
                ),
                Box::new(body.expr.view()),
            ),
            Expr::Case(scrutinee, alternatives) => ExprV::Case(
                Box::new(scrutinee.expr.view()),
                Seq::new(
                    alternatives@.len(),
                    |i: int|
                        if 0 <= i < alternatives@.len() {
                            (alternatives@[i].pattern@, alternatives@[i].expression.expr.view())
                        } else {
                            (PatternV::Number(0), ExprV::Number(0))
                        },
                ),
            ),
        }
    }
}

impl Typed<Expr> {
    /// The shape of the expression; the location is informational.
    pub open spec fn view(&self) -> ExprV {
        self.expr@
    }

    /// An expression without a place in the source.
    pub fn new(expr: Expr) -> (r: Typed<Expr>)
        ensures
            r@ == expr@,
            r.location == Location::spec_start(),
    {
        Typed { expr, location: Location::start() }
    }

    pub fn with_location(expr: Expr, loc: Location) -> (r: Typed<Expr>)
        ensures
            r@ == expr@,
            r.location == loc,
    {
        Typed { expr, location: loc }
    }
}

/// The views of the bindings of a `let`.
pub open spec fn let_bindings_view(bindings: Seq<(String, Typed<Expr>)>) -> Seq<(Seq<char>, ExprV)> {
    Seq::new(bindings.len(), |i: int| (bindings[i].0@, bindings[i].1@))
}

/// The views of a sequence of expressions.
pub open spec fn exprs_view(exprs: Seq<Typed<Expr>>) -> Seq<ExprV> {
    Seq::new(exprs.len(), |i: int| exprs[i]@)
}

pub fn identifier(name: String) -> (r: Typed<Expr>)
    ensures
        r@ == ExprV::Identifier(name@),
{
    Typed::new(Expr::Identifier(name))
}

pub fn number(i: isize) -> (r: Typed<Expr>)
    ensures
        r@ == ExprV::Number(i as int),
{
    Typed::new(Expr::Number(i))
}

pub fn apply(func: Typed<Expr>, arg: Typed<Expr>) -> (r: Typed<Expr>)
    ensures
        r@ == ExprV::Apply(Box::new(func@), Box::new(arg@)),
{
    Typed::new(Expr::Apply(Box::new(func), Box::new(arg)))
}

pub fn lambda(arg: String, body: Typed<Expr>) -> (r: Typed<Expr>)
    ensures
        r@ == ExprV::Lambda(arg@, Box::new(body@)),
{
    Typed::new(Expr::Lambda(arg, Box::new(body)))
}

pub fn let_(bindings: Vec<(String, Typed<Expr>)>, expr: Typed<Expr>) -> (r: Typed<Expr>)
    ensures
        r@ == ExprV::Let(let_bindings_view(bindings@), Box::new(expr@)),
{
    let r = Typed::new(Expr::Let(bindings, Box::new(expr)));
    assert(r@->Let_0 =~= let_bindings_view(bindings@));
    r
}

/// The views of the alternatives of a `case`.
pub open spec fn alternatives_view(alternatives: Seq<Alternative>) -> Seq<(PatternV, ExprV)> {
    Seq::new(alternatives.len(), |i: int| (alternatives[i].pattern@, alternatives[i].expression@))
}

pub fn case_(scrutinee: Typed<Expr>, alternatives: Vec<Alternative>) -> (r: Typed<Expr>)
    ensures
        r@ == ExprV::Case(Box::new(scrutinee@), alternatives_view(alternatives@)),
{
    let r = Typed::new(Expr::Case(Box::new(scrutinee), alternatives));
    assert(r@->Case_1 =~= alternatives_view(alternatives@));
    r
}

/// The type of functions from `from` to `to`.
pub open spec fn spec_function_type(from: TypeV, to: TypeV) -> TypeV {
    TypeV::Operator("->"@, seq![from, to])
}

impl Clone for Type {
    fn clone(&self) -> (r: Type)
        ensures
            r@ == self@,
        decreases self,
    {
        match self {
            Type::TypeVariable(v) => Type::TypeVariable(TypeVariable { id: v.id }),
            Type::TypeOperator(op) => {
                let mut types: Vec<Type> = Vec::new();
                let mut i: usize = 0;
                while i < op.types.len()
                    invariant
                        i <= op.types.len(),
                        self is TypeOperator,
                        self->TypeOperator_0 == *op,
                        types@.len() == i,
                        forall|j: int| 0 <= j < i ==> types@[j]@ == op.types@[j]@,
                    decreases op.types.len() - i,
                {
                    let t = op.types[i].clone();
                    types.push(t);
                    i += 1;
                }
                let r = Type::TypeOperator(TypeOperator { name: op.name.clone(), types });
                assert(r@->Operator_1 =~= self@->Operator_1);
                r
            },
        }
    }
}

impl Clone for TypeOperator {
    fn clone(&self) -> (r: TypeOperator)
        ensures
            r@ == self@,
    {
        let mut types: Vec<Type> = Vec::new();
        let mut i: usize = 0;
        while i < self.types.len()
            invariant
                i <= self.types.len(),
                types@.len() == i,
                forall|j: int| 0 <= j < i ==> types@[j]@ == self.types@[j]@,
            decreases self.types.len() - i,
        {
            let t = self.types[i].clone();
            types.push(t);
            i += 1;
        }
        let r = TypeOperator { name: self.name.clone(), types };
        assert(types_view(r.types@) =~= types_view(self.types@));
        r
    }
}

pub fn function_type(from: &Type, to: &Type) -> (r: Type)
    ensures
        r@ == spec_function_type(from@, to@),
{
    let mut args: Vec<Type> = Vec::new();
    args.push(from.clone());
    args.push(to.clone());
    let r = Type::new_op("->".to_owned(), args);
    assert(types_view(args@) =~= seq![from@, to@]);
    r
}

/// Whether two types are the same.
pub fn type_eq(a: &Type, b: &Type) -> (r: bool)
    ensures
        r == (a@ == b@),
    decreases a,
{
    match (a, b) {
        (Type::TypeVariable(x), Type::TypeVariable(y)) => x.id == y.id,
        (Type::TypeOperator(x), Type::TypeOperator(y)) => {
            if !(x.name == y.name) || x.types.len() != y.types.len() {
                assert(a@->Operator_1.len() == x.types@.len());
                assert(b@->Operator_1.len() == y.types@.len());
                return false;
            }
            let mut i: usize = 0;
            while i < x.types.len()
                invariant
                    i <= x.types.len(),
                    x.types.len() == y.types.len(),
                    a is TypeOperator,
                    b is TypeOperator,
                    a->TypeOperator_0 == *x,
                    b->TypeOperator_0 == *y,
                    forall|j: int| 0 <= j < i ==> x.types@[j]@ == y.types@[j]@,
                decreases x.types.len() - i,
            {
                if !type_eq(&x.types[i], &y.types[i]) {
                    assert(a@->Operator_1[i as int] == x.types@[i as int]@);
                    assert(b@->Operator_1[i as int] == y.types@[i as int]@);
                    return false;
                }
                i += 1;
            }
            assert(a@->Operator_1 =~= b@->Operator_1);
            true
        },
        _ => false,
    }
}

/// Whether two patterns are the same.
pub fn pattern_eq(a: &Pattern, b: &Pattern) -> (r: bool)
    ensures
        r == (a@ == b@),
    decreases a,
{
    match (a, b) {
        (Pattern::NumberPattern(x), Pattern::NumberPattern(y)) => *x == *y,
        (Pattern::IdentifierPattern(x), Pattern::IdentifierPattern(y)) => *x == *y,
        (Pattern::ConstructorPattern(xn, xs), Pattern::ConstructorPattern(yn, ys)) => {
            if !(*xn == *yn) || xs.len() != ys.len() {
                assert(a@->Constructor_1.len() == xs@.len());
                assert(b@->Constructor_1.len() == ys@.len());
                return false;
            }
            let mut i: usize = 0;
            while i < xs.len()
                invariant
                    i <= xs.len(),
                    xs.len() == ys.len(),
                    a is ConstructorPattern,
                    b is ConstructorPattern,
                    a->ConstructorPattern_1 == *xs,
                    b->ConstructorPattern_1 == *ys,
                    forall|j: int| 0 <= j < i ==> xs@[j]@ == ys@[j]@,
                decreases xs.len() - i,
            {
                if !pattern_eq(&xs[i], &ys[i]) {
                    assert(a@->Constructor_1[i as int] == xs@[i as int]@);
                    assert(b@->Constructor_1[i as int] == ys@[i as int]@);
                    return false;
                }
                i += 1;
            }
            assert(a@->Constructor_1 =~= b@->Constructor_1);
            true
        },
        _ => false,
    }
}

/// Whether two expressions have the same shape, wherever they stand.
pub fn expr_eq(a: &Expr, b: &Expr) -> (r: bool)
    ensures
        r == (a@ == b@),
    decreases a,
{
    match (a, b) {
        (Expr::Identifier(x), Expr::Identifier(y)) => *x == *y,
        (Expr::Number(x), Expr::Number(y)) => *x == *y,
        (Expr::Apply(xf, xa), Expr::Apply(yf, ya)) => expr_eq(&xf.expr, &yf.expr) && expr_eq(
            &xa.expr,
            &ya.expr,
        ),
        (Expr::Lambda(xp, xb), Expr::Lambda(yp, yb)) => *xp == *yp && expr_eq(&xb.expr, &yb.expr),
        (Expr::Let(xs, xb), Expr::Let(ys, yb)) => {
            if xs.len() != ys.len() {
                assert(a@->Let_0.len() == xs@.len());
                assert(b@->Let_0.len() == ys@.len());
                return false;
            }
            let mut i: usize = 0;
            while i < xs.len()
                invariant
                    i <= xs.len(),
                    xs.len() == ys.len(),
                    a is Let,
                    b is Let,
                    a->Let_0 == *xs,
                    b->Let_0 == *ys,
                    forall|j: int|
                        0 <= j < i ==> xs@[j].0@ == ys@[j].0@ && xs@[j].1.expr@ == ys@[j].1.expr@,
                decreases xs.len() - i,
            {
                if !(xs[i].0 == ys[i].0) || !expr_eq(&xs[i].1.expr, &ys[i].1.expr) {
                    assert(a@->Let_0[i as int] == (xs@[i as int].0@, xs@[i as int].1.expr@));
                    assert(b@->Let_0[i as int] == (ys@[i as int].0@, ys@[i as int].1.expr@));
                    return false;
                }
                i += 1;
            }
            assert(a@->Let_0 =~= b@->Let_0);
            expr_eq(&xb.expr, &yb.expr)
        },
        (Expr::Case(xe, xs), Expr::Case(ye, ys)) => {
            if xs.len() != ys.len() {
                assert(a@->Case_1.len() == xs@.len());
                assert(b@->Case_1.len() == ys@.len());
                return false;
            }
            let mut i: usize = 0;
            while i < xs.len()
                invariant
                    i <= xs.len(),
                    xs.len() == ys.len(),
                    a is Case,
                    b is Case,
                    a->Case_1 == *xs,
                    b->Case_1 == *ys,
                    forall|j: int|
                        0 <= j < i ==> xs@[j].pattern@ == ys@[j].pattern@ && xs@[j].expression.expr@
                            == ys@[j].expression.expr@,
                decreases xs.len() - i,
            {
                if !pattern_eq(&xs[i].pattern, &ys[i].pattern) || !expr_eq(
                    &xs[i].expression.expr,
                    &ys[i].expression.expr,
                ) {
                    assert(a@->Case_1[i as int] == (
                        xs@[i as int].pattern@,
                        xs@[i as int].expression.expr@,
                    ));
                    assert(b@->Case_1[i as int] == (
                        ys@[i as int].pattern@,
                        ys@[i as int].expression.expr@,
                    ));
                    return false;
                }
                i += 1;
            }
            assert(a@->Case_1 =~= b@->Case_1);
            expr_eq(&xe.expr, &ye.expr)
        },
        _ => false,
    }
}

impl PartialEq for Type {
    fn eq(&self, other: &Type) -> (r: bool) {
        type_eq(self, other)
    }
}

impl vstd::std_specs::cmp::PartialEqSpecImpl for Type {
    open spec fn obeys_eq_spec() -> bool {
        true
    }

    open spec fn eq_spec(&self, other: &Type) -> bool {
        self@ == other@
    }
}

impl PartialEq for Pattern {
    fn eq(&self, other: &Pattern) -> (r: bool) {
        pattern_eq(self, other)
    }
}

impl vstd::std_specs::cmp::PartialEqSpecImpl for Pattern {
    open spec fn obeys_eq_spec() -> bool {
        true
    }

    open spec fn eq_spec(&self, other: &Pattern) -> bool {
        self@ == other@
    }
}

impl PartialEq for Expr {
    fn eq(&self, other: &Expr) -> (r: bool) {
        expr_eq(self, other)
    }
}

impl vstd::std_specs::cmp::PartialEqSpecImpl for Expr {
    open spec fn obeys_eq_spec() -> bool {
        true
    }

    open spec fn eq_spec(&self, other: &Expr) -> bool {
        self@ == other@
    }
}

/// Typed expressions are the same when their shapes are; the locations are
/// informational.
impl PartialEq for Typed<Expr> {
    fn eq(&self, other: &Typed<Expr>) -> (r: bool) {
        expr_eq(&self.expr, &other.expr)
    }
}

impl vstd::std_specs::cmp::PartialEqSpecImpl for Typed<Expr> {
    open spec fn obeys_eq_spec() -> bool {
        true
    }

    open spec fn eq_spec(&self, other: &Typed<Expr>) -> bool {
        self@ == other@
    }
}

} // verus!
