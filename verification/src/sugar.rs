//! What the surface syntax stands for: operator precedence, the names of
//! tuple constructors, curried applications and lambdas, lists, number
//! literals, and the constraints of a context.

use vstd::prelude::*;
use vstd::string::*;
use crate::ast::{
    Expr, ExprV, Type, TypeOperator, TypeV, Typed, apply, exprs_view, identifier, lambda,
    lemma_operator_view, types_view,
};
use crate::error::ParseError;
use crate::text::{is_digit, spec_is_digit};

verus! {

/// The binding strength of an operator: 3 for `*`, `/` and `%`, 1 for `+`,
/// `-` and the comparisons, 9 for every other operator.
pub open spec fn spec_precedence(s: Seq<char>) -> int {
    if s == "+"@ || s == "-"@ {
        1
    } else if s == "*"@ || s == "/"@ || s == "%"@ {
        3
    } else if s == "=="@ || s == "/="@ || s == "<"@ || s == ">"@ || s == "<="@ || s == ">="@ {
        1
    } else {
        9
    }
}

pub fn precedence(s: &str) -> (r: isize)
    ensures
        r == spec_precedence(s@),
{
    if *s == *"+" || *s == *"-" {
        1
    } else if *s == *"*" || *s == *"/" || *s == *"%" {
        3
    } else if *s == *"==" || *s == *"/=" || *s == *"<" || *s == *">" || *s == *"<=" || *s == *">=" {
        1
    } else {
        9
    }
}

/// `n` commas.
pub open spec fn commas(n: nat) -> Seq<char> {
    Seq::new(n, |i: int| ',')
}

/// The name of the constructor of tuples of `size` members: a pair of
/// parentheses around `size - 1` commas.
pub open spec fn spec_tuple_name(size: nat) -> Seq<char> {
    seq!['('] + commas(if size >= 1 { (size - 1) as nat } else { 0 }) + seq![')']
}

pub fn tuple_name(size: usize) -> (r: String)
    ensures
        r@ == spec_tuple_name(size as nat),
{
    let mut name = String::new();
    name.push('(');
    let mut i: usize = 1;
    while i < size
        invariant
            1 <= i,
            i <= size || (size == 0 && i == 1),
            name@ == seq!['('] + commas((i - 1) as nat),
        decreases size - i,
    {
        name.push(',');
        assert(name@ =~= seq!['('] + commas(i as nat));
        i += 1;
    }
    let ghost k: nat = if size >= 1 { (size - 1) as nat } else { 0 };
    assert(i - 1 == k);
    name.push(')');
    assert(name@ =~= seq!['('] + commas(k) + seq![')']);
    name
}

/// `f` applied to the arguments one by one, from the left.
pub open spec fn apply_all(f: ExprV, args: Seq<ExprV>) -> ExprV
    decreases args.len(),
{
    if args.len() == 0 {
        f
    } else {
        apply_all(ExprV::Apply(Box::new(f), Box::new(args[0])), args.drop_first())
    }
}

pub fn make_application(f: Typed<Expr>, args: Vec<Typed<Expr>>) -> (r: Typed<Expr>)
    requires
        args@.len() >= 1,
    ensures
        r@ == apply_all(f@, exprs_view(args@)),
{
    let ghost whole = apply_all(f@, exprs_view(args@));
    let mut func = f;
    let mut rest = args;
    while rest.len() > 0
        invariant
            apply_all(func@, exprs_view(rest@)) == whole,
        decreases rest.len(),
    {
        let ghost before = exprs_view(rest@);
        let a = rest.remove(0);
        assert(exprs_view(rest@) =~= before.drop_first());
        func = apply(func, a);
    }
    func
}

/// The function of the parameters `params`, outermost first, with `body`.
pub open spec fn lambda_all(params: Seq<Seq<char>>, body: ExprV) -> ExprV
    decreases params.len(),
{
    if params.len() == 0 {
        body
    } else {
        lambda_all(params.drop_last(), ExprV::Lambda(params.last(), Box::new(body)))
    }
}

/// The views of a sequence of strings.
pub open spec fn names_view(names: Seq<String>) -> Seq<Seq<char>> {
    Seq::new(names.len(), |i: int| names[i]@)
}

pub fn make_lambda(a: Vec<String>, body: Typed<Expr>) -> (r: Typed<Expr>)
    requires
        a@.len() >= 1,
    ensures
        r@ == lambda_all(names_view(a@), body@),
{
    let ghost whole = lambda_all(names_view(a@), body@);
    let mut args = a;
    let mut inner = body;
    while args.len() > 0
        invariant
            lambda_all(names_view(args@), inner@) == whole,
        decreases args.len(),
    {
        let ghost before = names_view(args@);
        let name = args.pop().unwrap();
        assert(names_view(args@) =~= before.drop_last());
        inner = lambda(name, inner);
    }
    inner
}

/// The tuple of `members`: the constructor named after their number,
/// applied to them.
pub open spec fn spec_tuple(members: Seq<ExprV>) -> ExprV {
    apply_all(ExprV::Identifier(spec_tuple_name(members.len())), members)
}

pub fn new_tuple(arguments: Vec<Typed<Expr>>) -> (r: Typed<Expr>)
    requires
        arguments@.len() >= 1,
    ensures
        r@ == spec_tuple(exprs_view(arguments@)),
{
    let name = identifier(tuple_name(arguments.len()));
    make_application(name, arguments)
}

/// `head : tail`.
pub open spec fn cons(head: ExprV, tail: ExprV) -> ExprV {
    ExprV::Apply(
        Box::new(ExprV::Apply(Box::new(ExprV::Identifier(":"@)), Box::new(head))),
        Box::new(tail),
    )
}

/// The members of `items` in front of `tail`, the last one innermost.
pub open spec fn list_onto(items: Seq<ExprV>, tail: ExprV) -> ExprV
    decreases items.len(),
{
    if items.len() == 0 {
        tail
    } else {
        list_onto(items.drop_last(), cons(items.last(), tail))
    }
}

/// The list of `items`: `e1 : (e2 : ... (en : []))`.
pub open spec fn spec_list(items: Seq<ExprV>) -> ExprV {
    list_onto(items, ExprV::Identifier("[]"@))
}

pub fn make_list(items: Vec<Typed<Expr>>) -> (r: Typed<Expr>)
    ensures
        r@ == spec_list(exprs_view(items@)),
{
    let ghost whole = spec_list(exprs_view(items@));
    let mut rest = items;
    let mut list = identifier("[]".to_owned());
    while rest.len() > 0
        invariant
            list_onto(exprs_view(rest@), list@) == whole,
        decreases rest.len(),
    {
        let ghost before = exprs_view(rest@);
        let last = rest.pop().unwrap();
        assert(exprs_view(rest@) =~= before.drop_last());
        list = apply(apply(identifier(":".to_owned()), last), list);
    }
    list
}

/// The type of tuples of `types`.
pub open spec fn spec_tuple_type(types: Seq<TypeV>) -> TypeV {
    TypeV::Operator(spec_tuple_name(types.len()), types)
}

pub fn tuple_type(types: Vec<Type>) -> (r: Type)
    ensures
        r@ == spec_tuple_type(types_view(types@)),
{
    Type::new_op(tuple_name(types.len()), types)
}

/// The value of a digit.
pub open spec fn digit_value(c: char) -> int {
    c as int - '0' as int
}

/// The number that a run of digits denotes.
pub open spec fn number_value(digits: Seq<char>) -> int
    decreases digits.len(),
{
    if digits.len() == 0 {
        0
    } else {
        number_value(digits.drop_last()) * 10 + digit_value(digits.last())
    }
}

pub open spec fn all_digits(s: Seq<char>) -> bool {
    forall|i: int| 0 <= i < s.len() ==> spec_is_digit(#[trigger] s[i])
}

/// The value of a prefix of a run of digits is at most the value of the run.
pub proof fn lemma_number_value_grows(digits: Seq<char>, n: int)
    requires
        all_digits(digits),
        0 <= n <= digits.len(),
    ensures
        0 <= number_value(digits.subrange(0, n)) <= number_value(digits),
    decreases digits.len() - n,
{
    if n == digits.len() {
        assert(digits.subrange(0, n) =~= digits);
        lemma_number_value_nonnegative(digits);
    } else {
        lemma_number_value_grows(digits, n + 1);
        let longer = digits.subrange(0, n + 1);
        assert(longer.drop_last() =~= digits.subrange(0, n));
        assert(spec_is_digit(digits[n]));
        lemma_number_value_nonnegative(digits.subrange(0, n));
    }
}

pub proof fn lemma_number_value_nonnegative(digits: Seq<char>)
    requires
        all_digits(digits),
    ensures
        0 <= number_value(digits),
    decreases digits.len(),
{
    if digits.len() > 0 {
        lemma_number_value_nonnegative(digits.drop_last());
        assert(spec_is_digit(digits[digits.len() - 1]));
    }
}

/// What a number literal denotes, if it is a run of digits whose value the
/// machine's integers can hold.
pub open spec fn spec_parse_number(s: Seq<char>) -> Option<int> {
    if all_digits(s) && number_value(s) <= isize::MAX {
        Some(number_value(s))
    } else {
        None
    }
}

pub fn parse_number(s: &str) -> (r: Option<isize>)
    ensures
        match r {
            Some(v) => spec_parse_number(s@) == Some(v as int),
            None => spec_parse_number(s@).is_none(),
        },
{
    let len = s.unicode_len();
    let mut value: isize = 0;
    let mut i: usize = 0;
    while i < len
        invariant
            i <= len,
            len == s@.len(),
            all_digits(s@.subrange(0, i as int)),
            value == number_value(s@.subrange(0, i as int)),
            0 <= value,
        decreases len - i,
    {
        let c = s.get_char(i);
        let ghost shorter = s@.subrange(0, i as int);
        let ghost longer = s@.subrange(0, i + 1);
        proof {
            assert(longer.drop_last() =~= shorter);
            assert(longer.last() == c);
        }
        if !is_digit(c) {
            proof {
                assert(!spec_is_digit(s@[i as int]));
            }
            return None;
        }
        proof {
            assert forall|j: int| 0 <= j < longer.len() implies spec_is_digit(
                #[trigger] longer[j],
            ) by {
                if j < i {
                    assert(longer[j] == shorter[j]);
                }
            }
        }
        let digit = (c as u32 - '0' as u32) as isize;
        let next = match value.checked_mul(10) {
            Some(tens) => tens.checked_add(digit),
            None => None,
        };
        match next {
            Some(v) => {
                value = v;
            },
            None => {
                proof {
                    assert(number_value(longer) > isize::MAX);
                    if all_digits(s@) {
                        lemma_number_value_grows(s@, i + 1);
                    }
                }
                return None;
            },
        }
        i += 1;
    }
    proof {
        assert(s@.subrange(0, len as int) =~= s@);
    }
    Some(value)
}

/// Whether a name begins with an upper-case letter.
pub open spec fn spec_starts_uppercase(s: Seq<char>) -> bool {
    s.len() > 0 && crate::text::is_uppercase_char(s[0])
}

pub fn starts_uppercase(s: &str) -> (r: bool)
    ensures
        r == spec_starts_uppercase(s@),
{
    s.unicode_len() > 0 && s.get_char(0).is_uppercase()
}

/// The name under which a binding of an instance is known: `#`, the name of
/// the instance's type, and the binding's own name.
pub open spec fn spec_encode_binding_identifier(instancename: Seq<char>, bindingname: Seq<char>) -> Seq<char> {
    seq!['#'] + instancename + bindingname
}

pub fn encode_binding_identifier(instancename: &str, bindingname: &str) -> (r: String)
    ensures
        r@ == spec_encode_binding_identifier(instancename@, bindingname@),
{
    let mut name = String::new();
    name.push('#');
    name.append(instancename);
    name.append(bindingname);
    assert(name@ =~= spec_encode_binding_identifier(instancename@, bindingname@));
    name
}

/// Whether every member of `types` is a type operator.
pub open spec fn all_operators(types: Seq<TypeV>) -> bool {
    forall|i: int| 0 <= i < types.len() ==> (#[trigger] types[i]) is Operator
}

/// The class constraints that a context stands for: the members of a tuple,
/// each of which has to be a constraint itself, or else the one constraint.
pub open spec fn spec_type_constraints(name: Seq<char>, types: Seq<TypeV>) -> Option<Seq<TypeV>> {
    if name.len() > 0 && name[0] == '(' {
        if all_operators(types) {
            Some(types)
        } else {
            None
        }
    } else {
        Some(seq![TypeV::Operator(name, types)])
    }
}

/// The views of a sequence of type operators.
pub open spec fn operators_view(ops: Seq<TypeOperator>) -> Seq<TypeV> {
    Seq::new(ops.len(), |i: int| ops[i]@)
}

pub fn create_type_constraints(context: TypeOperator) -> (r: Result<Vec<TypeOperator>, ParseError>)
    ensures
        match spec_type_constraints(context.name@, types_view(context.types@)) {
            Some(constraints) => r.is_ok() && operators_view(r.unwrap()@) == constraints,
            None => r == Err::<Vec<TypeOperator>, ParseError>(ParseError::ExpectedConstraint),
        },
{
    let mut mapping: Vec<TypeOperator> = Vec::new();
    if context.name.as_str().unicode_len() > 0 && context.name.as_str().get_char(0) == '(' {
        let ghost all = types_view(context.types@);
        let mut types = context.types;
        let ghost total = types@.len();
        while types.len() > 0
            invariant
                types@.len() + mapping@.len() == total,
                total == all.len(),
                all == types_view(context.types@),
                context.name@.len() > 0 && context.name@[0] == '(',
                forall|i: int| 0 <= i < mapping@.len() ==> (#[trigger] mapping@[i])@ == all[i],
                forall|i: int| 0 <= i < mapping@.len() ==> (#[trigger] all[i]) is Operator,
                forall|i: int|
                    0 <= i < types@.len() ==> (#[trigger] types@[i])@ == all[mapping@.len() + i],
            decreases types.len(),
        {
            let ghost before = types@;
            let t = types.remove(0);
            assert(t@ == all[mapping@.len() as int]);
            assert forall|i: int| 0 <= i < types@.len() implies (#[trigger] types@[i])@
                == all[mapping@.len() + 1 + i] by {
                assert(types@[i] == before[i + 1]);
            }
            match t {
                Type::TypeOperator(op) => {
                    proof {
                        lemma_operator_view(op);
                    }
                    mapping.push(op);
                },
                Type::TypeVariable(_) => {
                    assert(!(all[mapping@.len() as int] is Operator));
                    assert(!all_operators(all));
                    assert(context.name@.len() > 0 && context.name@[0] == '(');
                    assert(all == types_view(context.types@));
                    return Err(ParseError::ExpectedConstraint);
                },
            }
        }
        assert(operators_view(mapping@) =~= all);
    } else {
        proof {
            assert(context@ == TypeV::Operator(context.name@, types_view(context.types@)));
        }
        mapping.push(context);
        assert(operators_view(mapping@) =~= seq![
            TypeV::Operator(context.name@, types_view(context.types@)),
        ]);
    }
    Ok(mapping)
}

} // verus!
