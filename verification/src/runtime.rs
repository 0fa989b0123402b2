//! The evaluator, the printer and the runtime's set-up.
use crate::error::{EvalError, EvalErrorView};
use crate::model::{
    elts_view, lemma_items_view, names_view, pieces_view, Builtin, Double, Elt, EltView, Piece,
    PieceView, Runtime, RuntimeView, Scope,
};
use crate::semantics::{
    accumulate_spec, as_double, bind_spec, builtin_name, builtin_spec, builtin_symbol, call_spec,
    combine, done, eval_args_spec, eval_spec, execute_spec, expand_spec, fold_spec, format_spec,
    int_result, join_spec, message_spec, params_spec, print_spec, replace_spec, text,
    with_builtins, ArgsOutcome, FoldOutcome, NumberView, Outcome, RunOutcome,
};
use crate::text::{decimal, push_decimal, push_natural};
use vstd::prelude::*;
use vstd::slice::slice_subrange;
use vstd::string::StringExecFns;

verus! {

/// The accumulator of an arithmetic fold: an integer until a double comes in.
#[derive(Debug, PartialEq, Eq)]
pub enum Number {
    Int(i64),
    Double(Double),
}

impl View for Number {
    type V = NumberView;

    open spec fn view(&self) -> NumberView {
        match self {
            Number::Int(i) => NumberView::Int(*i),
            Number::Double(d) => NumberView::Double(d@),
        }
    }
}

/// The mathematical form of the result of an evaluation.
pub open spec fn result_view(r: Result<Elt, EvalError>) -> Result<EltView, EvalErrorView> {
    match r {
        Ok(v) => Ok(v@),
        Err(e) => Err(e@),
    }
}

/// The mathematical form of the result of one step of a fold.
pub open spec fn number_result_view(r: Result<Number, EvalError>) -> Result<
    NumberView,
    EvalErrorView,
> {
    match r {
        Ok(n) => Ok(n@),
        Err(e) => Err(e@),
    }
}

fn lookup(scope: &Scope, name: &String) -> (r: Result<Elt, EvalError>)
    ensures
        scope@.contains_key(name@) ==> result_view(r) == Ok::<EltView, EvalErrorView>(
            scope@[name@],
        ),
        !scope@.contains_key(name@) ==> result_view(r) == Err::<EltView, EvalErrorView>(
            EvalErrorView::UndefinedVariable { name: name@ },
        ),
{
    match scope.get(name) {
        Some(value) => Ok(value.clone()),
        None => Err(EvalError::UndefinedVariable { name: name.clone() }),
    }
}

fn number_to_double(n: Number) -> (r: Double)
    ensures
        r@ == as_double(n@),
{
    match n {
        Number::Int(i) => Double::FromInt(i),
        Number::Double(d) => d,
    }
}

fn combine_doubles(op: Builtin, a: Double, b: Double) -> (r: Double)
    ensures
        r@ == combine(op, a@, b@),
{
    match op {
        Builtin::Plus => Double::Sum(Box::new(a), Box::new(b)),
        Builtin::Minus => Double::Difference(Box::new(a), Box::new(b)),
        Builtin::Mult => Double::Product(Box::new(a), Box::new(b)),
        _ => Double::Quotient(Box::new(a), Box::new(b)),
    }
}

/// The integer that `op` makes of `a` and `b`, if it fits in 64 bits.
fn combine_ints(op: Builtin, a: i64, b: i64) -> (r: Option<i64>)
    ensures
        match r {
            Some(v) => v == int_result(op, a as int, b as int),
            None => !(i64::MIN <= int_result(op, a as int, b as int) <= i64::MAX),
        },
{
    match op {
        Builtin::Plus => a.checked_add(b),
        Builtin::Minus => a.checked_sub(b),
        _ => a.checked_mul(b),
    }
}

/// Takes one more operand into the accumulator of the arithmetic primitive `op`;
/// `first` says that it is the first operand.
///
/// Integers stay integers under `+`, `-` and `*`, and an integer result outside
/// the 64-bit range is an error. A double operand makes the accumulator a double,
/// and `/` always does. The first operand of `-` and `/` replaces the
/// accumulator. An operand that is no number is an error that names it.
pub fn accumulate(op: Builtin, first: bool, acc: Number, operand: Elt) -> (r: Result<
    Number,
    EvalError,
>)
    ensures
        number_result_view(r) == accumulate_spec(op, first, acc@, operand@),
{
    let seeds = match op {
        Builtin::Minus | Builtin::Div => true,
        _ => false,
    };
    let divides = match op {
        Builtin::Div => true,
        _ => false,
    };
    match operand {
        Elt::Int(i) => {
            if first && seeds {
                if divides {
                    Ok(Number::Double(Double::FromInt(i)))
                } else {
                    Ok(Number::Int(i))
                }
            } else {
                match acc {
                    Number::Int(a) if !divides => {
                        match combine_ints(op, a, i) {
                            Some(v) => Ok(Number::Int(v)),
                            None => Err(EvalError::Overflow { builtin: op }),
                        }
                    },
                    _ => Ok(
                        Number::Double(
                            combine_doubles(op, number_to_double(acc), Double::FromInt(i)),
                        ),
                    ),
                }
            }
        },
        Elt::Double(d) => {
            if first && seeds {
                Ok(Number::Double(d))
            } else {
                Ok(Number::Double(combine_doubles(op, number_to_double(acc), d)))
            }
        },
        _ => Err(EvalError::TypeMismatch { builtin: op, value: operand }),
    }
}

// ---------------------------------------------------------------------------
// The printer
// ---------------------------------------------------------------------------
fn builtin_label(b: Builtin) -> (r: &'static str)
    ensures
        r@ == builtin_name(b),
{
    match b {
        Builtin::Print => "Print",
        Builtin::Println => "Println",
        Builtin::Def => "Def",
        Builtin::Quote => "Quote",
        Builtin::Fn_ => "Fn_",
        Builtin::Macro => "Macro",
        Builtin::Car => "Car",
        Builtin::Cdr => "Cdr",
        Builtin::Cons => "Cons",
        Builtin::Empty_ => "Empty_",
        Builtin::If => "If",
        Builtin::Nth => "Nth",
        Builtin::Plus => "Plus",
        Builtin::Minus => "Minus",
        Builtin::Mult => "Mult",
        Builtin::Div => "Div",
    }
}

fn push_piece(out: &mut Vec<Piece>, piece: Piece)
    ensures
        pieces_view(final(out)@) == pieces_view(old(out)@).push(piece@),
{
    out.push(piece);
    assert(pieces_view(out@) =~= pieces_view(old(out)@).push(piece@));
}

fn push_text(out: &mut Vec<Piece>, s: &str)
    ensures
        pieces_view(final(out)@) == pieces_view(old(out)@) + text(s@),
{
    push_piece(out, Piece::Text(s.to_owned()));
    assert(pieces_view(out@) =~= pieces_view(old(out)@) + text(s@));
}

/// Appends to `out` what the printer writes for `elts`, with one space between
/// neighbours.
fn format_with_spaces(elts: &Vec<Elt>, out: &mut Vec<Piece>)
    ensures
        pieces_view(final(out)@) == pieces_view(old(out)@) + join_spec(
            elts_view(elts@),
            elts@.len() as nat,
        ),
    decreases elts, 1nat,
{
    let ghost items = elts_view(elts@);
    let mut i: usize = 0;
    while i < elts.len()
        invariant
            i <= elts.len(),
            items == elts_view(elts@),
            pieces_view(out@) == pieces_view(old(out)@) + join_spec(items, i as nat),
        decreases elts.len() - i,
    {
        let ghost before = pieces_view(out@);
        if i > 0 {
            push_text(out, " ");
        }
        format_into(&elts[i], out);
        proof {
            assert(items[i as int] == elts@[i as int]@);
            if i == 0 {
                assert(pieces_view(out@) =~= pieces_view(old(out)@) + join_spec(items, 1));
            } else {
                assert(pieces_view(out@) =~= before + text(" "@) + format_spec(items[i as int]));
                assert(pieces_view(out@) =~= pieces_view(old(out)@) + join_spec(
                    items,
                    (i + 1) as nat,
                ));
            }
        }
        i += 1;
    }
}

fn format_into(elt: &Elt, out: &mut Vec<Piece>)
    ensures
        pieces_view(final(out)@) == pieces_view(old(out)@) + format_spec(elt@),
    decreases elt, 0nat,
{
    match elt {
        Elt::List(items) => {
            proof {
                lemma_items_view(*elt);
            }
            push_text(out, "(");
            format_with_spaces(items, out);
            push_text(out, ")");
            assert(pieces_view(out@) =~= pieces_view(old(out)@) + format_spec(elt@));
        },
        Elt::Vector(items) => {
            proof {
                lemma_items_view(*elt);
            }
            push_text(out, "[");
            format_with_spaces(items, out);
            push_text(out, "]");
            assert(pieces_view(out@) =~= pieces_view(old(out)@) + format_spec(elt@));
        },
        Elt::Bool(b) => {
            if *b {
                push_text(out, "true");
            } else {
                push_text(out, "false");
            }
        },
        Elt::Int(i) => {
            let rendered = decimal(*i);
            push_text(out, rendered.as_str());
        },
        Elt::Double(d) => {
            push_piece(out, Piece::Number(d.clone()));
            assert(pieces_view(out@) =~= pieces_view(old(out)@) + format_spec(elt@));
        },
        Elt::String_(s) => {
            push_text(out, s.as_str());
        },
        Elt::Symbol(s) => {
            push_text(out, s.as_str());
        },
        Elt::Nil => {
            push_text(out, "nil");
        },
        Elt::Function { .. } => {
            push_text(out, "<function>");
        },
        Elt::BuiltinFunction(b) => {
            let mut label = "<builtin function ".to_owned();
            label.append(builtin_label(*b));
            label.append(">");
            push_text(out, label.as_str());
        },
        Elt::Macro { .. } => {
            push_text(out, "<macro>");
        },
    }
}

/// What the printer writes for a value.
///
/// A list is written as `(`, its items with one space between neighbours, and
/// `)`; a vector likewise in `[` and `]`. Integers are written in decimal,
/// strings and symbols as their text, `nil` for nil. A double is handed out as
/// a [`Piece::Number`]. Functions, macros and primitives are written as
/// placeholders that do not read back.
pub fn format_elt(elt: &Elt) -> (r: Vec<Piece>)
    ensures
        pieces_view(r@) == format_spec(elt@),
{
    let mut out: Vec<Piece> = Vec::new();
    format_into(elt, &mut out);
    assert(pieces_view(out@) =~= format_spec(elt@));
    out
}

fn builtin_source_name(b: Builtin) -> (r: &'static str)
    ensures
        r@ == builtin_symbol(b),
{
    match b {
        Builtin::Print => "print",
        Builtin::Println => "println",
        Builtin::Def => "def",
        Builtin::Quote => "quote",
        Builtin::Fn_ => "fn",
        Builtin::Macro => "macro",
        Builtin::Car => "car",
        Builtin::Cdr => "cdr",
        Builtin::Cons => "cons",
        Builtin::Empty_ => "empty?",
        Builtin::If => "if",
        Builtin::Nth => "nth",
        Builtin::Plus => "+",
        Builtin::Minus => "-",
        Builtin::Mult => "*",
        Builtin::Div => "/",
    }
}

impl EvalError {
    /// The message of the error: text, with the offending value as the printer
    /// writes it.
    pub fn message(&self) -> (r: Vec<Piece>)
        ensures
            pieces_view(r@) == message_spec(self@),
    {
        let mut out: Vec<Piece> = Vec::new();
        assert(pieces_view(out@) =~= Seq::<PieceView>::empty());
        match self {
            EvalError::UndefinedVariable { name } => {
                let mut s = "variable ".to_owned();
                s.append(name.as_str());
                s.append(" undefined");
                push_text(&mut out, s.as_str());
            },
            EvalError::EmptyCall => {
                push_text(&mut out, "attempt to evaluate empty list as function");
            },
            EvalError::NotCallable { value } => {
                push_text(&mut out, "attempt to treat ");
                format_into(value, &mut out);
                push_text(&mut out, " as function");
            },
            EvalError::WrongParameterCount { expected, received } => {
                let mut s = "expected ".to_owned();
                push_natural(&mut s, *expected as u64);
                s.append(" parameters, received ");
                push_natural(&mut s, *received as u64);
                push_text(&mut out, s.as_str());
            },
            EvalError::WrongArgumentCount { builtin, received } => {
                let mut s = builtin_source_name(*builtin).to_owned();
                s.append(" does not take ");
                push_natural(&mut s, *received as u64);
                s.append(" arguments");
                push_text(&mut out, s.as_str());
            },
            EvalError::TypeMismatch { builtin, value } => {
                let mut s = builtin_source_name(*builtin).to_owned();
                s.append(" does not accept ");
                push_text(&mut out, s.as_str());
                format_into(value, &mut out);
            },
            EvalError::EmptyList => {
                push_text(&mut out, "attempt to car empty list");
            },
            EvalError::IndexOutOfRange { index, length } => {
                let mut s = "index ".to_owned();
                push_decimal(&mut s, *index);
                s.append(" out of bounds for a list of length ");
                push_natural(&mut s, *length as u64);
                push_text(&mut out, s.as_str());
            },
            EvalError::Overflow { builtin } => {
                let mut s = "integer overflow in ".to_owned();
                s.append(builtin_source_name(*builtin));
                push_text(&mut out, s.as_str());
            },
            EvalError::DepthExceeded => {
                push_text(&mut out, "calls nested too deep");
            },
        }
        assert(pieces_view(out@) =~= message_spec(self@));
        out
    }
}

// ---------------------------------------------------------------------------
// Macro expansion
// ---------------------------------------------------------------------------
/// `elt` with a copy of `value` in place of every symbol named `symbol`.
///
/// The replacement goes through lists and vectors, to any depth, and through
/// nothing else; every other part of `elt` is kept as it is.
pub fn replace_symbol(elt: &Elt, symbol: &String, value: &Elt) -> (r: Elt)
    ensures
        r@ == replace_spec(elt@, symbol@, value@),
    decreases elt,
{
    match elt {
        Elt::Symbol(s) => {
            if *s == *symbol {
                value.clone()
            } else {
                elt.clone()
            }
        },
        Elt::List(items) => {
            let mut new: Vec<Elt> = Vec::new();
            let mut i: usize = 0;
            while i < items.len()
                invariant
                    i <= items.len(),
                    new.len() == i,
                    forall|j: int|
                        0 <= j < i ==> new@[j]@ == replace_spec(items@[j]@, symbol@, value@),
                    elt is List && elt->List_0 == *items,
                decreases items.len() - i,
            {
                new.push(replace_symbol(&items[i], symbol, value));
                i += 1;
            }
            let r = Elt::List(new);
            proof {
                lemma_items_view(r);
                lemma_items_view(*elt);
                assert(r@->List_0 =~= replace_spec(elt@, symbol@, value@)->List_0);
            }
            r
        },
        Elt::Vector(items) => {
            let mut new: Vec<Elt> = Vec::new();
            let mut i: usize = 0;
            while i < items.len()
                invariant
                    i <= items.len(),
                    new.len() == i,
                    forall|j: int|
                        0 <= j < i ==> new@[j]@ == replace_spec(items@[j]@, symbol@, value@),
                    elt is Vector && elt->Vector_0 == *items,
                decreases items.len() - i,
            {
                new.push(replace_symbol(&items[i], symbol, value));
                i += 1;
            }
            let r = Elt::Vector(new);
            proof {
                lemma_items_view(r);
                lemma_items_view(*elt);
                assert(r@->Vector_0 =~= replace_spec(elt@, symbol@, value@)->Vector_0);
            }
            r
        },
        _ => elt.clone(),
    }
}

// ---------------------------------------------------------------------------
// The evaluator
// ---------------------------------------------------------------------------
/// The state `after` keeps what evaluation does not change of the state
/// `before`: the depth limit, and that the root scope binds no name twice.
pub open spec fn keeps(after: Runtime, before: Runtime) -> bool {
    &&& after.depth_limit == before.depth_limit
    &&& before.root_scope.distinct() ==> after.root_scope.distinct()
}

/// `result` and the state `after` are what `outcome` says, and `after` keeps
/// what evaluation does not change of `before`.
pub open spec fn agrees(
    result: Result<Elt, EvalError>,
    after: Runtime,
    before: Runtime,
    outcome: Outcome,
) -> bool {
    &&& result_view(result) == outcome.result
    &&& after@ == outcome.runtime
    &&& keeps(after, before)
}

/// Once evaluating the arguments has failed, further arguments change nothing.
proof fn lemma_args_failed(
    args: Seq<EltView>,
    m: nat,
    n: nat,
    runtime: RuntimeView,
    scope: Map<Seq<char>, EltView>,
    depth: nat,
)
    requires
        m <= n <= args.len(),
        eval_args_spec(args, m, runtime, scope, depth).result is Err,
    ensures
        eval_args_spec(args, n, runtime, scope, depth) == eval_args_spec(
            args,
            m,
            runtime,
            scope,
            depth,
        ),
    decreases n,
{
    if m < n {
        lemma_args_failed(args, m, (n - 1) as nat, runtime, scope, depth);
    }
}

/// Once a fold has failed, further operands change nothing.
proof fn lemma_fold_failed(
    op: Builtin,
    args: Seq<EltView>,
    m: nat,
    n: nat,
    runtime: RuntimeView,
    scope: Map<Seq<char>, EltView>,
    depth: nat,
)
    requires
        m <= n <= args.len(),
        fold_spec(op, args, m, runtime, scope, depth).result is Err,
    ensures
        fold_spec(op, args, n, runtime, scope, depth) == fold_spec(
            op,
            args,
            m,
            runtime,
            scope,
            depth,
        ),
    decreases n,
{
    if m < n {
        lemma_fold_failed(op, args, m, (n - 1) as nat, runtime, scope, depth);
    }
}

/// Once printing has failed, further arguments change nothing.
proof fn lemma_print_failed(
    args: Seq<EltView>,
    m: nat,
    n: nat,
    runtime: RuntimeView,
    scope: Map<Seq<char>, EltView>,
    depth: nat,
)
    requires
        m <= n <= args.len(),
        print_spec(args, m, runtime, scope, depth).result is Err,
    ensures
        print_spec(args, n, runtime, scope, depth) == print_spec(args, m, runtime, scope, depth),
    decreases n,
{
    if m < n {
        lemma_print_failed(args, m, (n - 1) as nat, runtime, scope, depth);
    }
}

/// The value of an expression.
///
/// Numbers, booleans, strings, nil, vectors, functions, macros and primitives
/// are their own value. A symbol has the value that `scope` binds it to. A
/// non-empty list is a call, evaluated with `depth - 1` for everything below it;
/// at depth zero a call fails.
fn eval_at(value: &Elt, runtime: &mut Runtime, scope: &Scope, depth: usize) -> (r: Result<
    Elt,
    EvalError,
>)
    ensures
        agrees(
            r,
            *final(runtime),
            *old(runtime),
            eval_spec(value@, old(runtime)@, scope@, depth as nat),
        ),
    decreases depth, 0nat, 0nat,
{
    match value {
        Elt::List(elts) => {
            proof {
                lemma_items_view(*value);
            }
            if elts.len() == 0 {
                Err(EvalError::EmptyCall)
            } else if depth == 0 {
                Err(EvalError::DepthExceeded)
            } else {
                eval_function(elts, runtime, scope, depth - 1)
            }
        },
        Elt::Symbol(name) => lookup(scope, name),
        _ => Ok(value.clone()),
    }
}

/// The values of `args`, evaluated from left to right.
fn eval_args(args: &[Elt], runtime: &mut Runtime, scope: &Scope, depth: usize) -> (r: Result<
    Vec<Elt>,
    EvalError,
>)
    ensures
        ({
            let o = eval_args_spec(
                elts_view(args@),
                args@.len(),
                old(runtime)@,
                scope@,
                depth as nat,
            );
            &&& match r {
                Ok(values) => o.result == Ok::<Seq<EltView>, EvalErrorView>(elts_view(values@)),
                Err(e) => o.result == Err::<Seq<EltView>, EvalErrorView>(e@),
            }
            &&& final(runtime)@ == o.runtime
            &&& keeps(*final(runtime), *old(runtime))
        }),
    decreases depth, 1nat, 0nat,
{
    let ghost items = elts_view(args@);
    let ghost start = runtime@;
    let mut values: Vec<Elt> = Vec::new();
    let mut i: usize = 0;
    assert(elts_view(values@) =~= Seq::<EltView>::empty());
    while i < args.len()
        invariant
            i <= args.len(),
            items == elts_view(args@),
            start == old(runtime)@,
            keeps(*runtime, *old(runtime)),
            eval_args_spec(items, i as nat, start, scope@, depth as nat) == (ArgsOutcome {
                result: Ok(elts_view(values@)),
                runtime: runtime@,
            }),
        decreases args.len() - i,
    {
        let ghost before = elts_view(values@);
        assert(items[i as int] == args@[i as int]@);
        match eval_at(&args[i], runtime, scope, depth) {
            Ok(v) => {
                values.push(v);
                assert(elts_view(values@) =~= before.push(v@));
            },
            Err(e) => {
                proof {
                    lemma_args_failed(
                        items,
                        (i + 1) as nat,
                        args@.len(),
                        start,
                        scope@,
                        depth as nat,
                    );
                }
                return Err(e);
            },
        }
        i += 1;
    }
    Ok(values)
}

/// The scope of a function's body: the scope of the call with each parameter
/// bound to its value.
fn bind_parameters(scope: &Scope, names: &Vec<String>, values: &Vec<Elt>) -> (r: Scope)
    requires
        names.len() == values.len(),
    ensures
        r@ == bind_spec(scope@, names_view(names@), elts_view(values@), values@.len()),
{
    let mut new_scope = scope.clone();
    let mut i: usize = 0;
    while i < names.len()
        invariant
            i <= names.len(),
            names.len() == values.len(),
            new_scope@ == bind_spec(
                scope@,
                names_view(names@),
                elts_view(values@),
                i as nat,
            ),
        decreases names.len() - i,
    {
        new_scope.insert(names[i].clone(), values[i].clone());
        i += 1;
    }
    new_scope
}

/// The body of a macro with each parameter replaced, one after the other, by its
/// unevaluated argument.
fn expand(body: &Elt, names: &Vec<String>, args: &[Elt]) -> (r: Elt)
    requires
        names.len() == args.len(),
    ensures
        r@ == expand_spec(body@, names_view(names@), elts_view(args@), args@.len()),
{
    let mut replaced = body.clone();
    let mut i: usize = 0;
    while i < names.len()
        invariant
            i <= names.len(),
            names.len() == args.len(),
            replaced@ == expand_spec(body@, names_view(names@), elts_view(args@), i as nat),
        decreases names.len() - i,
    {
        replaced = replace_symbol(&replaced, &names[i], &args[i]);
        i += 1;
    }
    replaced
}

/// The value of a call.
///
/// The head is evaluated first. A function gets its arguments evaluated from
/// left to right and its body evaluated in the scope of the call with the
/// parameters bound. A macro gets its arguments unevaluated, put in place of
/// its parameters, and the result evaluated in the scope of the call. A
/// primitive does what [`builtin_spec`] says. Any other head is an error.
fn eval_function(elts: &Vec<Elt>, runtime: &mut Runtime, scope: &Scope, depth: usize) -> (r:
    Result<Elt, EvalError>)
    requires
        elts.len() > 0,
    ensures
        agrees(
            r,
            *final(runtime),
            *old(runtime),
            call_spec(elts_view(elts@), old(runtime)@, scope@, depth as nat),
        ),
    decreases depth, 3nat, 0nat,
{
    let function = match eval_at(&elts[0], runtime, scope, depth) {
        Ok(f) => f,
        Err(e) => {
            return Err(e);
        },
    };
    let args = slice_subrange(elts.as_slice(), 1, elts.len());
    assert(elts_view(args@) =~= elts_view(elts@).skip(1));
    match function {
        Elt::Function { lexical_bindings, body } => {
            let values = match eval_args(args, runtime, scope, depth) {
                Ok(values) => values,
                Err(e) => {
                    return Err(e);
                },
            };
            if lexical_bindings.len() != values.len() {
                return Err(
                    EvalError::WrongParameterCount {
                        expected: lexical_bindings.len(),
                        received: values.len(),
                    },
                );
            }
            let new_scope = bind_parameters(scope, &lexical_bindings, &values);
            eval_at(&body, runtime, &new_scope, depth)
        },
        Elt::Macro { lexical_bindings, body } => {
            if lexical_bindings.len() != args.len() {
                return Err(
                    EvalError::WrongParameterCount {
                        expected: lexical_bindings.len(),
                        received: args.len(),
                    },
                );
            }
            let replaced = expand(&body, &lexical_bindings, args);
            eval_at(&replaced, runtime, scope, depth)
        },
        Elt::BuiltinFunction(b) => eval_builtin(b, args, runtime, scope, depth),
        other => Err(EvalError::NotCallable { value: other }),
    }
}

/// What a primitive makes of its unevaluated arguments.
fn eval_builtin(b: Builtin, args: &[Elt], runtime: &mut Runtime, scope: &Scope, depth: usize) -> (r:
    Result<Elt, EvalError>)
    ensures
        agrees(
            r,
            *final(runtime),
            *old(runtime),
            builtin_spec(b, elts_view(args@), old(runtime)@, scope@, depth as nat),
        ),
    decreases depth, 2nat, 0nat,
{
    match b {
        Builtin::Def => eval_def(args, runtime, scope, depth),
        Builtin::Fn_ => make_closure(b, args, runtime),
        Builtin::Macro => make_closure(b, args, runtime),
        Builtin::Quote => {
            if args.len() != 1 {
                Err(EvalError::WrongArgumentCount { builtin: b, received: args.len() })
            } else {
                Ok(args[0].clone())
            }
        },
        Builtin::If => eval_if(args, runtime, scope, depth),
        Builtin::Car | Builtin::Cdr | Builtin::Empty_ => eval_list_primitive(
            b,
            args,
            runtime,
            scope,
            depth,
        ),
        Builtin::Cons => eval_cons(args, runtime, scope, depth),
        Builtin::Nth => eval_nth(args, runtime, scope, depth),
        Builtin::Plus | Builtin::Minus | Builtin::Mult | Builtin::Div => eval_arithmetic(
            b,
            args,
            runtime,
            scope,
            depth,
        ),
        Builtin::Print => eval_print(false, args, runtime, scope, depth),
        Builtin::Println => eval_print(true, args, runtime, scope, depth),
    }
}

/// `def`: binds a name in the root scope to the value of an expression.
fn eval_def(args: &[Elt], runtime: &mut Runtime, scope: &Scope, depth: usize) -> (r: Result<
    Elt,
    EvalError,
>)
    ensures
        agrees(
            r,
            *final(runtime),
            *old(runtime),
            builtin_spec(Builtin::Def, elts_view(args@), old(runtime)@, scope@, depth as nat),
        ),
    decreases depth, 1nat, 0nat,
{
    if args.len() != 2 {
        return Err(EvalError::WrongArgumentCount { builtin: Builtin::Def, received: args.len() });
    }
    match &args[0] {
        Elt::Symbol(sym) => {
            let val = match eval_at(&args[1], runtime, scope, depth) {
                Ok(val) => val,
                Err(e) => {
                    return Err(e);
                },
            };
            runtime.root_scope.insert(sym.clone(), val.clone());
            Ok(val)
        },
        other => Err(EvalError::TypeMismatch { builtin: Builtin::Def, value: other.clone() }),
    }
}

/// The names in a binding vector, if it is a vector of symbols.
fn parameter_names(arg: &Elt) -> (r: Option<Vec<String>>)
    ensures
        match r {
            Some(names) => params_spec(arg@) == Some(names_view(names@)),
            None => params_spec(arg@) is None,
        },
{
    match arg {
        Elt::Vector(params) => {
            proof {
                lemma_items_view(*arg);
            }
            let mut names: Vec<String> = Vec::new();
            let mut i: usize = 0;
            while i < params.len()
                invariant
                    i <= params.len(),
                    names.len() == i,
                    arg@ == EltView::Vector(elts_view(params@)),
                    forall|j: int| 0 <= j < i ==> params@[j]@ is Symbol,
                    forall|j: int| 0 <= j < i ==> names@[j]@ == params@[j]@->Symbol_0,
                decreases params.len() - i,
            {
                match &params[i] {
                    Elt::Symbol(s) => {
                        names.push(s.clone());
                    },
                    _ => {
                        assert(!(elts_view(params@)[i as int] is Symbol));
                        return None;
                    },
                }
                i += 1;
            }
            proof {
                let items = elts_view(params@);
                assert forall|j: int| 0 <= j < items.len() implies items[j] is Symbol by {
                    assert(items[j] == params@[j]@);
                }
                assert(names_view(names@) =~= Seq::new(items.len(), |j: int| items[j]->Symbol_0));
            }
            Some(names)
        },
        _ => None,
    }
}

/// `fn` and `macro`: a function or a macro from a binding vector and a body.
fn make_closure(b: Builtin, args: &[Elt], runtime: &Runtime) -> (r: Result<Elt, EvalError>)
    requires
        b == Builtin::Fn_ || b == Builtin::Macro,
    ensures
        result_view(r) == builtin_spec(b, elts_view(args@), runtime@, Map::empty(), 0).result,
        forall|scope: Map<Seq<char>, EltView>, depth: nat|
            builtin_spec(b, elts_view(args@), runtime@, scope, depth) == (Outcome {
                result: result_view(r),
                runtime: runtime@,
            }),
{
    if args.len() != 2 {
        return Err(EvalError::WrongArgumentCount { builtin: b, received: args.len() });
    }
    match parameter_names(&args[0]) {
        Some(lexical_bindings) => {
            let body = Box::new(args[1].clone());
            match b {
                Builtin::Fn_ => Ok(Elt::Function { lexical_bindings, body }),
                _ => Ok(Elt::Macro { lexical_bindings, body }),
            }
        },
        None => Err(EvalError::TypeMismatch { builtin: b, value: args[0].clone() }),
    }
}

/// `if`: the value of the second argument if the first is true, else of the
/// third; without a third, `false`.
fn eval_if(args: &[Elt], runtime: &mut Runtime, scope: &Scope, depth: usize) -> (r: Result<
    Elt,
    EvalError,
>)
    ensures
        agrees(
            r,
            *final(runtime),
            *old(runtime),
            builtin_spec(Builtin::If, elts_view(args@), old(runtime)@, scope@, depth as nat),
        ),
    decreases depth, 1nat, 0nat,
{
    if args.len() < 2 || args.len() > 3 {
        return Err(EvalError::WrongArgumentCount { builtin: Builtin::If, received: args.len() });
    }
    let condition = match eval_at(&args[0], runtime, scope, depth) {
        Ok(c) => c,
        Err(e) => {
            return Err(e);
        },
    };
    match condition {
        Elt::Bool(false) | Elt::Nil => {
            if args.len() == 3 {
                eval_at(&args[2], runtime, scope, depth)
            } else {
                Ok(Elt::Bool(false))
            }
        },
        _ => eval_at(&args[1], runtime, scope, depth),
    }
}

/// A copy of the items of `items` from index `from` on.
fn clone_from_index(items: &Vec<Elt>, from: usize) -> (r: Vec<Elt>)
    requires
        from <= items.len(),
    ensures
        elts_view(r@) == elts_view(items@).skip(from as int),
{
    let mut out: Vec<Elt> = Vec::new();
    let mut i: usize = from;
    while i < items.len()
        invariant
            from <= i <= items.len(),
            out.len() == i - from,
            forall|j: int| 0 <= j < out.len() ==> out@[j]@ == items@[from + j]@,
        decreases items.len() - i,
    {
        out.push(items[i].clone());
        i += 1;
    }
    assert(elts_view(out@) =~= elts_view(items@).skip(from as int));
    out
}

/// `car`, `cdr` and `empty?`: the first item of a list, the list without its
/// first item, and whether the list has no item.
fn eval_list_primitive(
    b: Builtin,
    args: &[Elt],
    runtime: &mut Runtime,
    scope: &Scope,
    depth: usize,
) -> (r: Result<Elt, EvalError>)
    requires
        b == Builtin::Car || b == Builtin::Cdr || b == Builtin::Empty_,
    ensures
        agrees(
            r,
            *final(runtime),
            *old(runtime),
            builtin_spec(b, elts_view(args@), old(runtime)@, scope@, depth as nat),
        ),
    decreases depth, 1nat, 0nat,
{
    if args.len() != 1 {
        return Err(EvalError::WrongArgumentCount { builtin: b, received: args.len() });
    }
    let list = match eval_at(&args[0], runtime, scope, depth) {
        Ok(list) => list,
        Err(e) => {
            return Err(e);
        },
    };
    match list {
        Elt::List(items) => {
            proof {
                lemma_items_view(Elt::List(items));
            }
            match b {
                Builtin::Car => {
                    if items.len() == 0 {
                        Err(EvalError::EmptyList)
                    } else {
                        Ok(items[0].clone())
                    }
                },
                Builtin::Cdr => {
                    let rest = if items.len() == 0 {
                        Vec::new()
                    } else {
                        clone_from_index(&items, 1)
                    };
                    let r = Elt::List(rest);
                    proof {
                        lemma_items_view(r);
                        if items.len() == 0 {
                            assert(elts_view(rest@) =~= Seq::<EltView>::empty());
                        }
                    }
                    Ok(r)
                },
                _ => Ok(Elt::Bool(items.len() == 0)),
            }
        },
        other => Err(EvalError::TypeMismatch { builtin: b, value: other }),
    }
}

/// `cons`: a list with the value of the first argument before the items of the
/// second.
fn eval_cons(args: &[Elt], runtime: &mut Runtime, scope: &Scope, depth: usize) -> (r: Result<
    Elt,
    EvalError,
>)
    ensures
        agrees(
            r,
            *final(runtime),
            *old(runtime),
            builtin_spec(Builtin::Cons, elts_view(args@), old(runtime)@, scope@, depth as nat),
        ),
    decreases depth, 1nat, 0nat,
{
    if args.len() != 2 {
        return Err(EvalError::WrongArgumentCount { builtin: Builtin::Cons, received: args.len() });
    }
    let first = match eval_at(&args[0], runtime, scope, depth) {
        Ok(first) => first,
        Err(e) => {
            return Err(e);
        },
    };
    let list = match eval_at(&args[1], runtime, scope, depth) {
        Ok(list) => list,
        Err(e) => {
            return Err(e);
        },
    };
    match list {
        Elt::List(items) => {
            let ghost head = first@;
            let mut new_list: Vec<Elt> = Vec::new();
            new_list.push(first);
            let mut i: usize = 0;
            while i < items.len()
                invariant
                    i <= items.len(),
                    new_list.len() == i + 1,
                    new_list@[0]@ == head,
                    forall|j: int| 0 <= j < i ==> new_list@[j + 1]@ == items@[j]@,
                decreases items.len() - i,
            {
                new_list.push(items[i].clone());
                i += 1;
            }
            let r = Elt::List(new_list);
            proof {
                lemma_items_view(Elt::List(items));
                lemma_items_view(r);
                assert(elts_view(new_list@) =~= seq![head] + elts_view(items@));
            }
            Ok(r)
        },
        other => Err(EvalError::TypeMismatch { builtin: Builtin::Cons, value: other }),
    }
}

/// `nth`: the item of a list at a 0-based index.
fn eval_nth(args: &[Elt], runtime: &mut Runtime, scope: &Scope, depth: usize) -> (r: Result<
    Elt,
    EvalError,
>)
    ensures
        agrees(
            r,
            *final(runtime),
            *old(runtime),
            builtin_spec(Builtin::Nth, elts_view(args@), old(runtime)@, scope@, depth as nat),
        ),
    decreases depth, 1nat, 0nat,
{
    if args.len() != 2 {
        return Err(EvalError::WrongArgumentCount { builtin: Builtin::Nth, received: args.len() });
    }
    let list = match eval_at(&args[0], runtime, scope, depth) {
        Ok(list) => list,
        Err(e) => {
            return Err(e);
        },
    };
    match list {
        Elt::List(items) => {
            proof {
                lemma_items_view(Elt::List(items));
            }
            let index = match eval_at(&args[1], runtime, scope, depth) {
                Ok(index) => index,
                Err(e) => {
                    return Err(e);
                },
            };
            match index {
                Elt::Int(i) => {
                    if i >= 0 && (i as u64) < (items.len() as u64) {
                        Ok(items[i as usize].clone())
                    } else {
                        Err(EvalError::IndexOutOfRange { index: i, length: items.len() })
                    }
                },
                other => Err(EvalError::TypeMismatch { builtin: Builtin::Nth, value: other }),
            }
        },
        other => Err(EvalError::TypeMismatch { builtin: Builtin::Nth, value: other }),
    }
}

/// `+`, `-`, `*` and `/`: a fold over the values of the arguments, from left to
/// right.
fn eval_arithmetic(
    op: Builtin,
    args: &[Elt],
    runtime: &mut Runtime,
    scope: &Scope,
    depth: usize,
) -> (r: Result<Elt, EvalError>)
    requires
        op == Builtin::Plus || op == Builtin::Minus || op == Builtin::Mult || op == Builtin::Div,
    ensures
        agrees(
            r,
            *final(runtime),
            *old(runtime),
            builtin_spec(op, elts_view(args@), old(runtime)@, scope@, depth as nat),
        ),
    decreases depth, 1nat, 0nat,
{
    let ghost items = elts_view(args@);
    let ghost start = runtime@;
    let mut acc = match op {
        Builtin::Mult => Number::Int(1),
        Builtin::Div => Number::Double(Double::FromInt(0)),
        _ => Number::Int(0),
    };
    let mut i: usize = 0;
    while i < args.len()
        invariant
            i <= args.len(),
            items == elts_view(args@),
            start == old(runtime)@,
            op == Builtin::Plus || op == Builtin::Minus || op == Builtin::Mult || op
                == Builtin::Div,
            keeps(*runtime, *old(runtime)),
            fold_spec(op, items, i as nat, start, scope@, depth as nat) == (FoldOutcome {
                result: Ok(acc@),
                runtime: runtime@,
            }),
        decreases args.len() - i,
    {
        assert(items[i as int] == args@[i as int]@);
        let operand = match eval_at(&args[i], runtime, scope, depth) {
            Ok(v) => v,
            Err(e) => {
                proof {
                    lemma_fold_failed(
                        op,
                        items,
                        (i + 1) as nat,
                        args@.len(),
                        start,
                        scope@,
                        depth as nat,
                    );
                }
                return Err(e);
            },
        };
        acc = match accumulate(op, i == 0, acc, operand) {
            Ok(next) => next,
            Err(e) => {
                proof {
                    lemma_fold_failed(
                        op,
                        items,
                        (i + 1) as nat,
                        args@.len(),
                        start,
                        scope@,
                        depth as nat,
                    );
                }
                return Err(e);
            },
        };
        i += 1;
    }
    match acc {
        Number::Int(v) => Ok(Elt::Int(v)),
        Number::Double(d) => Ok(Elt::Double(d)),
    }
}

/// `print` and `println`: writes the value of each argument, with one space
/// between neighbours, and for `println` a line feed after the last.
fn eval_print(newline: bool, args: &[Elt], runtime: &mut Runtime, scope: &Scope, depth: usize) -> (r:
    Result<Elt, EvalError>)
    ensures
        agrees(
            r,
            *final(runtime),
            *old(runtime),
            builtin_spec(
                if newline {
                    Builtin::Println
                } else {
                    Builtin::Print
                },
                elts_view(args@),
                old(runtime)@,
                scope@,
                depth as nat,
            ),
        ),
    decreases depth, 1nat, 0nat,
{
    let ghost items = elts_view(args@);
    let ghost start = runtime@;
    let mut i: usize = 0;
    while i < args.len()
        invariant
            i <= args.len(),
            items == elts_view(args@),
            start == old(runtime)@,
            keeps(*runtime, *old(runtime)),
            print_spec(items, i as nat, start, scope@, depth as nat) == done(
                EltView::Nil,
                runtime@,
            ),
        decreases args.len() - i,
    {
        assert(items[i as int] == args@[i as int]@);
        let value = match eval_at(&args[i], runtime, scope, depth) {
            Ok(v) => v,
            Err(e) => {
                proof {
                    lemma_print_failed(
                        items,
                        (i + 1) as nat,
                        args@.len(),
                        start,
                        scope@,
                        depth as nat,
                    );
                }
                return Err(e);
            },
        };
        let ghost evaluated = runtime@;
        if i > 0 {
            push_text(&mut runtime.output, " ");
        }
        format_into(&value, &mut runtime.output);
        proof {
            let gap = if i == 0 {
                Seq::<PieceView>::empty()
            } else {
                text(" "@)
            };
            assert(runtime@.output =~= evaluated.output + gap + format_spec(value@));
            assert(runtime@.root == evaluated.root);
        }
        i += 1;
    }
    if newline {
        push_text(&mut runtime.output, "\n");
    }
    Ok(Elt::Nil)
}

/// The value of `value` in `scope`, with calls nested no deeper than the
/// runtime's depth limit.
///
/// The limit decides only whether the evaluation ends with
/// [`EvalError::DepthExceeded`]: an evaluation that does not is the same under
/// every greater limit.
///
/// What the value is, which error comes in its place, what `def` has bound in
/// the root scope and what `print` and `println` have written are those that
/// [`eval_spec`] gives.
pub fn eval(value: &Elt, runtime: &mut Runtime, scope: &Scope) -> (r: Result<Elt, EvalError>)
    ensures
        agrees(
            r,
            *final(runtime),
            *old(runtime),
            eval_spec(value@, old(runtime)@, scope@, old(runtime).depth_limit as nat),
        ),
{
    let depth = runtime.depth_limit;
    eval_at(value, runtime, scope, depth)
}

// ---------------------------------------------------------------------------
// The runtime
// ---------------------------------------------------------------------------
/// The depth limit of a new runtime: none but the machine's.
///
/// Calls then nest as deep as the stack of the machine allows, and an
/// evaluation that nests deeper ends the process. A caller that wants
/// [`EvalError::DepthExceeded`] in its place sets a lower limit; what an
/// evaluation gives does not depend on the limit that lets it through.
pub const DEFAULT_DEPTH_LIMIT: usize = usize::MAX;

fn bind(scope: &mut Scope, name: &str, b: Builtin)
    ensures
        final(scope)@ == old(scope)@.insert(name@, EltView::BuiltinFunction(b)),
        old(scope).distinct() ==> final(scope).distinct(),
{
    scope.insert(name.to_owned(), Elt::BuiltinFunction(b));
}

/// Binds every primitive to its name.
fn bind_builtins(scope: &mut Scope)
    ensures
        final(scope)@ == with_builtins(old(scope)@),
        old(scope).distinct() ==> final(scope).distinct(),
{
    bind(scope, "def", Builtin::Def);
    bind(scope, "quote", Builtin::Quote);
    bind(scope, "fn", Builtin::Fn_);
    bind(scope, "macro", Builtin::Macro);
    bind(scope, "car", Builtin::Car);
    bind(scope, "cdr", Builtin::Cdr);
    bind(scope, "cons", Builtin::Cons);
    bind(scope, "empty?", Builtin::Empty_);
    bind(scope, "if", Builtin::If);
    bind(scope, "nth", Builtin::Nth);
    bind(scope, "+", Builtin::Plus);
    bind(scope, "-", Builtin::Minus);
    bind(scope, "*", Builtin::Mult);
    bind(scope, "/", Builtin::Div);
    bind(scope, "print", Builtin::Print);
    bind(scope, "println", Builtin::Println);
}

/// A runtime whose root scope binds the primitives and nothing else, with
/// nothing written and the default depth limit.
pub fn new() -> (r: Runtime)
    ensures
        r@.root == with_builtins(Map::empty()),
        r@.output == Seq::<PieceView>::empty(),
        r.depth_limit == DEFAULT_DEPTH_LIMIT,
        r.root_scope.distinct(),
{
    let mut root_scope = Scope::new();
    bind_builtins(&mut root_scope);
    let r = Runtime { root_scope, output: Vec::new(), depth_limit: DEFAULT_DEPTH_LIMIT };
    assert(r@.output =~= Seq::<PieceView>::empty());
    r
}

/// Evaluates the forms of `ast` in order, each in a copy of the root scope as
/// it is when its turn comes, and stops at the first that fails.
pub fn execute(runtime: &mut Runtime, ast: Vec<Elt>) -> (r: Result<(), EvalError>)
    ensures
        ({
            let o = execute_spec(
                elts_view(ast@),
                ast@.len(),
                old(runtime)@,
                old(runtime).depth_limit as nat,
            );
            &&& match r {
                Ok(_) => o.result is Ok,
                Err(e) => o.result == Err::<(), EvalErrorView>(e@),
            }
            &&& final(runtime)@ == o.runtime
            &&& keeps(*final(runtime), *old(runtime))
        }),
{
    let ghost program = elts_view(ast@);
    let ghost start = runtime@;
    let mut i: usize = 0;
    while i < ast.len()
        invariant
            i <= ast.len(),
            program == elts_view(ast@),
            start == old(runtime)@,
            keeps(*runtime, *old(runtime)),
            execute_spec(program, i as nat, start, runtime.depth_limit as nat) == (RunOutcome {
                result: Ok(()),
                runtime: runtime@,
            }),
        decreases ast.len() - i,
    {
        assert(program[i as int] == ast@[i as int]@);
        let scope = runtime.root_scope.clone();
        match eval(&ast[i], runtime, &scope) {
            Ok(_) => {},
            Err(e) => {
                proof {
                    lemma_execute_failed(
                        program,
                        (i + 1) as nat,
                        ast@.len(),
                        start,
                        runtime.depth_limit as nat,
                    );
                }
                return Err(e);
            },
        }
        i += 1;
    }
    Ok(())
}

/// Once a run has failed, further forms change nothing.
proof fn lemma_execute_failed(program: Seq<EltView>, m: nat, n: nat, runtime: RuntimeView, depth: nat)
    requires
        m <= n <= program.len(),
        execute_spec(program, m, runtime, depth).result is Err,
    ensures
        execute_spec(program, n, runtime, depth) == execute_spec(program, m, runtime, depth),
    decreases n,
{
    if m < n {
        lemma_execute_failed(program, m, (n - 1) as nat, runtime, depth);
    }
}

} // verus!
