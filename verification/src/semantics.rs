//! What evaluation means: the definitions that the evaluator's contracts state.
//!
//! Evaluation is defined on the mathematical forms of values. `depth` bounds how
//! deep calls may nest: evaluating a non-empty list needs a depth above zero and
//! evaluates everything below it with one less.
use crate::error::EvalErrorView;
use crate::model::{Builtin, DoubleView, EltView, PieceView, RuntimeView};
use vstd::prelude::*;

verus! {

/// The result of an evaluation together with the state it leaves.
pub struct Outcome {
    pub result: Result<EltView, EvalErrorView>,
    pub runtime: RuntimeView,
}

/// The results of evaluating several expressions in order.
pub struct ArgsOutcome {
    pub result: Result<Seq<EltView>, EvalErrorView>,
    pub runtime: RuntimeView,
}

/// The accumulator of an arithmetic fold.
pub enum NumberView {
    Int(i64),
    Double(DoubleView),
}

/// The accumulator of an arithmetic fold after some of the operands.
pub struct FoldOutcome {
    pub result: Result<NumberView, EvalErrorView>,
    pub runtime: RuntimeView,
}

/// The outcome of a failure that leaves the state `runtime`.
pub open spec fn fail(error: EvalErrorView, runtime: RuntimeView) -> Outcome {
    Outcome { result: Err(error), runtime }
}

/// The outcome of an evaluation that gives `value` and leaves the state
/// `runtime`.
pub open spec fn done(value: EltView, runtime: RuntimeView) -> Outcome {
    Outcome { result: Ok(value), runtime }
}

/// Everything but `false` and `nil` counts as true.
pub open spec fn truthy(value: EltView) -> bool {
    value != EltView::Bool(false) && value != EltView::Nil
}

// ---------------------------------------------------------------------------
// Printing
// ---------------------------------------------------------------------------
/// The character of a decimal digit.
pub open spec fn digit_char(d: int) -> char {
    ((48 + d) as u8) as char
}

/// The decimal digits of a natural number, most significant first.
pub open spec fn natural_text(n: nat) -> Seq<char>
    decreases n,
{
    if n < 10 {
        seq![digit_char(n as int)]
    } else {
        natural_text(n / 10).push(digit_char((n % 10) as int))
    }
}

/// The decimal form of an integer: a minus sign if it is negative, then its digits.
pub open spec fn decimal_text(i: int) -> Seq<char> {
    if i < 0 {
        seq!['-'] + natural_text((-i) as nat)
    } else {
        natural_text(i as nat)
    }
}

/// The name of a primitive as the printer writes it.
pub open spec fn builtin_name(b: Builtin) -> Seq<char> {
    match b {
        Builtin::Print => "Print"@,
        Builtin::Println => "Println"@,
        Builtin::Def => "Def"@,
        Builtin::Quote => "Quote"@,
        Builtin::Fn_ => "Fn_"@,
        Builtin::Macro => "Macro"@,
        Builtin::Car => "Car"@,
        Builtin::Cdr => "Cdr"@,
        Builtin::Cons => "Cons"@,
        Builtin::Empty_ => "Empty_"@,
        Builtin::If => "If"@,
        Builtin::Nth => "Nth"@,
        Builtin::Plus => "Plus"@,
        Builtin::Minus => "Minus"@,
        Builtin::Mult => "Mult"@,
        Builtin::Div => "Div"@,
    }
}

/// The one piece of text `s`.
pub open spec fn text(s: Seq<char>) -> Seq<PieceView> {
    seq![PieceView::Text(s)]
}

/// What the printer writes for a value.
pub open spec fn format_spec(value: EltView) -> Seq<PieceView>
    decreases value, 0nat,
{
    match value {
        EltView::List(items) => text("("@) + join_spec(items, items.len()) + text(")"@),
        EltView::Vector(items) => text("["@) + join_spec(items, items.len()) + text("]"@),
        EltView::Bool(b) => if b {
            text("true"@)
        } else {
            text("false"@)
        },
        EltView::Int(i) => text(decimal_text(i as int)),
        EltView::Double(d) => seq![PieceView::Number(d)],
        EltView::String_(s) => text(s),
        EltView::Symbol(s) => text(s),
        EltView::Nil => text("nil"@),
        EltView::Function { .. } => text("<function>"@),
        EltView::BuiltinFunction(b) => text("<builtin function "@ + builtin_name(b) + ">"@),
        EltView::Macro { .. } => text("<macro>"@),
    }
}

/// What the printer writes for the first `n` of `items`: each as
/// [`format_spec`] gives it, with one space between neighbours.
pub open spec fn join_spec(items: Seq<EltView>, n: nat) -> Seq<PieceView>
    decreases items, n,
{
    if n == 0 || n > items.len() {
        Seq::empty()
    } else if n == 1 {
        format_spec(items[0])
    } else {
        join_spec(items, (n - 1) as nat) + text(" "@) + format_spec(items[n - 1])
    }
}

// ---------------------------------------------------------------------------
// Macro expansion
// ---------------------------------------------------------------------------
/// `elt` with `value` in place of every symbol named `symbol`, through lists and
/// vectors and nothing else.
pub open spec fn replace_spec(elt: EltView, symbol: Seq<char>, value: EltView) -> EltView
    decreases elt,
{
    match elt {
        EltView::Symbol(s) => if s == symbol {
            value
        } else {
            elt
        },
        EltView::List(items) => EltView::List(
            Seq::new(
                items.len(),
                |i: int|
                    if 0 <= i < items.len() {
                        replace_spec(items[i], symbol, value)
                    } else {
                        EltView::Nil
                    },
            ),
        ),
        EltView::Vector(items) => EltView::Vector(
            Seq::new(
                items.len(),
                |i: int|
                    if 0 <= i < items.len() {
                        replace_spec(items[i], symbol, value)
                    } else {
                        EltView::Nil
                    },
            ),
        ),
        _ => elt,
    }
}

/// `body` after replacing the first `n` parameters, one after the other, by their
/// arguments.
pub open spec fn expand_spec(
    body: EltView,
    params: Seq<Seq<char>>,
    args: Seq<EltView>,
    n: nat,
) -> EltView
    decreases n,
{
    if n == 0 || n > params.len() || n > args.len() {
        body
    } else {
        replace_spec(expand_spec(body, params, args, (n - 1) as nat), params[n - 1], args[n - 1])
    }
}

/// `scope` after binding the first `n` parameters, one after the other, to their
/// values.
pub open spec fn bind_spec(
    scope: Map<Seq<char>, EltView>,
    params: Seq<Seq<char>>,
    values: Seq<EltView>,
    n: nat,
) -> Map<Seq<char>, EltView>
    decreases n,
{
    if n == 0 || n > params.len() || n > values.len() {
        scope
    } else {
        bind_spec(scope, params, values, (n - 1) as nat).insert(params[n - 1], values[n - 1])
    }
}

/// The parameter names that a binding vector gives, if it is a vector of symbols.
pub open spec fn params_spec(arg: EltView) -> Option<Seq<Seq<char>>> {
    match arg {
        EltView::Vector(items) => if forall|i: int| 0 <= i < items.len() ==> items[i] is Symbol {
            Some(Seq::new(items.len(), |i: int| items[i]->Symbol_0))
        } else {
            None
        },
        _ => None,
    }
}

// ---------------------------------------------------------------------------
// Arithmetic
// ---------------------------------------------------------------------------
/// The value that an arithmetic fold starts from.
pub open spec fn initial_spec(op: Builtin) -> NumberView {
    match op {
        Builtin::Mult => NumberView::Int(1),
        Builtin::Div => NumberView::Double(DoubleView::FromInt(0)),
        _ => NumberView::Int(0),
    }
}

/// Whether the first operand of `op` replaces the accumulator.
pub open spec fn seeds(op: Builtin) -> bool {
    op == Builtin::Minus || op == Builtin::Div
}

/// The accumulator as a double: an integer is converted.
pub open spec fn as_double(n: NumberView) -> DoubleView {
    match n {
        NumberView::Int(i) => DoubleView::FromInt(i),
        NumberView::Double(d) => d,
    }
}

/// The double that `op` makes of two doubles.
pub open spec fn combine(op: Builtin, a: DoubleView, b: DoubleView) -> DoubleView {
    match op {
        Builtin::Plus => DoubleView::Sum(Box::new(a), Box::new(b)),
        Builtin::Minus => DoubleView::Difference(Box::new(a), Box::new(b)),
        Builtin::Mult => DoubleView::Product(Box::new(a), Box::new(b)),
        _ => DoubleView::Quotient(Box::new(a), Box::new(b)),
    }
}

/// The integer that `op` makes of two integers, before the range check.
pub open spec fn int_result(op: Builtin, a: int, b: int) -> int {
    match op {
        Builtin::Plus => a + b,
        Builtin::Minus => a - b,
        _ => a * b,
    }
}

/// The accumulator of `op` after one more operand.
///
/// Integers stay integers under `+`, `-` and `*` as long as the result fits in
/// 64 bits; a double operand, or `/`, makes the accumulator a double for good.
pub open spec fn accumulate_spec(op: Builtin, first: bool, acc: NumberView, operand: EltView) -> Result<
    NumberView,
    EvalErrorView,
> {
    match operand {
        EltView::Int(i) => {
            if first && seeds(op) {
                if op == Builtin::Div {
                    Ok(NumberView::Double(DoubleView::FromInt(i)))
                } else {
                    Ok(NumberView::Int(i))
                }
            } else {
                match acc {
                    NumberView::Int(a) if op != Builtin::Div => {
                        let r = int_result(op, a as int, i as int);
                        if i64::MIN <= r <= i64::MAX {
                            Ok(NumberView::Int(r as i64))
                        } else {
                            Err(EvalErrorView::Overflow { builtin: op })
                        }
                    },
                    _ => Ok(NumberView::Double(combine(op, as_double(acc), DoubleView::FromInt(i)))),
                }
            }
        },
        EltView::Double(d) => {
            if first && seeds(op) {
                Ok(NumberView::Double(d))
            } else {
                Ok(NumberView::Double(combine(op, as_double(acc), d)))
            }
        },
        _ => Err(EvalErrorView::TypeMismatch { builtin: op, value: operand }),
    }
}

/// The value that an accumulator stands for.
pub open spec fn number_value(n: NumberView) -> EltView {
    match n {
        NumberView::Int(i) => EltView::Int(i),
        NumberView::Double(d) => EltView::Double(d),
    }
}

// ---------------------------------------------------------------------------
// Evaluation
// ---------------------------------------------------------------------------
/// The value of an expression, and the state that evaluating it leaves.
pub open spec fn eval_spec(
    value: EltView,
    runtime: RuntimeView,
    scope: Map<Seq<char>, EltView>,
    depth: nat,
) -> Outcome
    decreases depth, 0nat, 0nat,
{
    match value {
        EltView::List(elts) => {
            if elts.len() == 0 {
                fail(EvalErrorView::EmptyCall, runtime)
            } else if depth == 0 {
                fail(EvalErrorView::DepthExceeded, runtime)
            } else {
                call_spec(elts, runtime, scope, (depth - 1) as nat)
            }
        },
        EltView::Symbol(name) => {
            if scope.contains_key(name) {
                done(scope[name], runtime)
            } else {
                fail(EvalErrorView::UndefinedVariable { name }, runtime)
            }
        },
        _ => done(value, runtime),
    }
}

/// The values of the first `n` of `args`, evaluated from left to right; the first
/// failure ends the evaluation.
pub open spec fn eval_args_spec(
    args: Seq<EltView>,
    n: nat,
    runtime: RuntimeView,
    scope: Map<Seq<char>, EltView>,
    depth: nat,
) -> ArgsOutcome
    decreases depth, 1nat, n,
{
    if n == 0 || n > args.len() {
        ArgsOutcome { result: Ok(Seq::empty()), runtime }
    } else {
        let before = eval_args_spec(args, (n - 1) as nat, runtime, scope, depth);
        match before.result {
            Err(_) => before,
            Ok(values) => {
                let o = eval_spec(args[n - 1], before.runtime, scope, depth);
                match o.result {
                    Err(e) => ArgsOutcome { result: Err(e), runtime: o.runtime },
                    Ok(v) => ArgsOutcome { result: Ok(values.push(v)), runtime: o.runtime },
                }
            },
        }
    }
}

/// The accumulator of `op` after the first `n` of `args`, each evaluated and
/// taken in before the next is evaluated.
pub open spec fn fold_spec(
    op: Builtin,
    args: Seq<EltView>,
    n: nat,
    runtime: RuntimeView,
    scope: Map<Seq<char>, EltView>,
    depth: nat,
) -> FoldOutcome
    decreases depth, 1nat, n,
{
    if n == 0 || n > args.len() {
        FoldOutcome { result: Ok(initial_spec(op)), runtime }
    } else {
        let before = fold_spec(op, args, (n - 1) as nat, runtime, scope, depth);
        match before.result {
            Err(_) => before,
            Ok(acc) => {
                let o = eval_spec(args[n - 1], before.runtime, scope, depth);
                match o.result {
                    Err(e) => FoldOutcome { result: Err(e), runtime: o.runtime },
                    Ok(v) => FoldOutcome {
                        result: accumulate_spec(op, n == 1, acc, v),
                        runtime: o.runtime,
                    },
                }
            },
        }
    }
}

/// The state after printing the first `n` of `args`: each is evaluated and
/// written before the next is evaluated, with one space between neighbours.
pub open spec fn print_spec(
    args: Seq<EltView>,
    n: nat,
    runtime: RuntimeView,
    scope: Map<Seq<char>, EltView>,
    depth: nat,
) -> Outcome
    decreases depth, 1nat, n,
{
    if n == 0 || n > args.len() {
        done(EltView::Nil, runtime)
    } else {
        let before = print_spec(args, (n - 1) as nat, runtime, scope, depth);
        match before.result {
            Err(_) => before,
            Ok(_) => {
                let o = eval_spec(args[n - 1], before.runtime, scope, depth);
                match o.result {
                    Err(_) => o,
                    Ok(v) => {
                        let gap = if n == 1 {
                            Seq::<PieceView>::empty()
                        } else {
                            text(" "@)
                        };
                        done(
                            EltView::Nil,
                            RuntimeView {
                                root: o.runtime.root,
                                output: o.runtime.output + gap + format_spec(v),
                            },
                        )
                    },
                }
            },
        }
    }
}

/// The failure of a primitive that was given a number of arguments it does not
/// take.
pub open spec fn wrong_count(b: Builtin, args: Seq<EltView>, runtime: RuntimeView) -> Outcome {
    fail(EvalErrorView::WrongArgumentCount { builtin: b, received: args.len() as usize }, runtime)
}

/// The failure of a primitive that was given a value of a kind it does not take.
pub open spec fn mismatch(b: Builtin, value: EltView, runtime: RuntimeView) -> Outcome {
    fail(EvalErrorView::TypeMismatch { builtin: b, value }, runtime)
}

/// What a primitive makes of its unevaluated arguments.
pub open spec fn builtin_spec(
    b: Builtin,
    args: Seq<EltView>,
    runtime: RuntimeView,
    scope: Map<Seq<char>, EltView>,
    depth: nat,
) -> Outcome
    decreases depth, 2nat, 0nat,
{
    match b {
        Builtin::Def => {
            if args.len() != 2 {
                wrong_count(b, args, runtime)
            } else if args[0] is Symbol {
                let o = eval_spec(args[1], runtime, scope, depth);
                match o.result {
                    Err(_) => o,
                    Ok(v) => done(
                        v,
                        RuntimeView {
                            root: o.runtime.root.insert(args[0]->Symbol_0, v),
                            output: o.runtime.output,
                        },
                    ),
                }
            } else {
                mismatch(b, args[0], runtime)
            }
        },
        Builtin::Fn_ => {
            if args.len() != 2 {
                wrong_count(b, args, runtime)
            } else {
                match params_spec(args[0]) {
                    Some(names) => done(
                        EltView::Function { lexical_bindings: names, body: Box::new(args[1]) },
                        runtime,
                    ),
                    None => mismatch(b, args[0], runtime),
                }
            }
        },
        Builtin::Macro => {
            if args.len() != 2 {
                wrong_count(b, args, runtime)
            } else {
                match params_spec(args[0]) {
                    Some(names) => done(
                        EltView::Macro { lexical_bindings: names, body: Box::new(args[1]) },
                        runtime,
                    ),
                    None => mismatch(b, args[0], runtime),
                }
            }
        },
        Builtin::Quote => {
            if args.len() != 1 {
                wrong_count(b, args, runtime)
            } else {
                done(args[0], runtime)
            }
        },
        Builtin::If => {
            if args.len() < 2 || args.len() > 3 {
                wrong_count(b, args, runtime)
            } else {
                let c = eval_spec(args[0], runtime, scope, depth);
                match c.result {
                    Err(_) => c,
                    Ok(v) => {
                        if truthy(v) {
                            eval_spec(args[1], c.runtime, scope, depth)
                        } else if args.len() == 3 {
                            eval_spec(args[2], c.runtime, scope, depth)
                        } else {
                            done(EltView::Bool(false), c.runtime)
                        }
                    },
                }
            }
        },
        Builtin::Car => {
            if args.len() != 1 {
                wrong_count(b, args, runtime)
            } else {
                let o = eval_spec(args[0], runtime, scope, depth);
                match o.result {
                    Err(_) => o,
                    Ok(EltView::List(items)) => {
                        if items.len() == 0 {
                            fail(EvalErrorView::EmptyList, o.runtime)
                        } else {
                            done(items[0], o.runtime)
                        }
                    },
                    Ok(v) => mismatch(b, v, o.runtime),
                }
            }
        },
        Builtin::Cdr => {
            if args.len() != 1 {
                wrong_count(b, args, runtime)
            } else {
                let o = eval_spec(args[0], runtime, scope, depth);
                match o.result {
                    Err(_) => o,
                    Ok(EltView::List(items)) => {
                        if items.len() == 0 {
                            done(EltView::List(Seq::empty()), o.runtime)
                        } else {
                            done(EltView::List(items.skip(1)), o.runtime)
                        }
                    },
                    Ok(v) => mismatch(b, v, o.runtime),
                }
            }
        },
        Builtin::Cons => {
            if args.len() != 2 {
                wrong_count(b, args, runtime)
            } else {
                let first = eval_spec(args[0], runtime, scope, depth);
                match first.result {
                    Err(_) => first,
                    Ok(head) => {
                        let second = eval_spec(args[1], first.runtime, scope, depth);
                        match second.result {
                            Err(_) => second,
                            Ok(EltView::List(items)) => done(
                                EltView::List(seq![head] + items),
                                second.runtime,
                            ),
                            Ok(v) => mismatch(b, v, second.runtime),
                        }
                    },
                }
            }
        },
        Builtin::Empty_ => {
            if args.len() != 1 {
                wrong_count(b, args, runtime)
            } else {
                let o = eval_spec(args[0], runtime, scope, depth);
                match o.result {
                    Err(_) => o,
                    Ok(EltView::List(items)) => done(EltView::Bool(items.len() == 0), o.runtime),
                    Ok(v) => mismatch(b, v, o.runtime),
                }
            }
        },
        Builtin::Nth => {
            if args.len() != 2 {
                wrong_count(b, args, runtime)
            } else {
                let list = eval_spec(args[0], runtime, scope, depth);
                match list.result {
                    Err(_) => list,
                    Ok(EltView::List(items)) => {
                        let index = eval_spec(args[1], list.runtime, scope, depth);
                        match index.result {
                            Err(_) => index,
                            Ok(EltView::Int(i)) => {
                                if 0 <= i < items.len() {
                                    done(items[i as int], index.runtime)
                                } else {
                                    fail(
                                        EvalErrorView::IndexOutOfRange {
                                            index: i,
                                            length: items.len() as usize,
                                        },
                                        index.runtime,
                                    )
                                }
                            },
                            Ok(v) => mismatch(b, v, index.runtime),
                        }
                    },
                    Ok(v) => mismatch(b, v, list.runtime),
                }
            }
        },
        Builtin::Plus | Builtin::Minus | Builtin::Mult | Builtin::Div => {
            let f = fold_spec(b, args, args.len(), runtime, scope, depth);
            match f.result {
                Err(e) => fail(e, f.runtime),
                Ok(n) => done(number_value(n), f.runtime),
            }
        },
        Builtin::Print => print_spec(args, args.len(), runtime, scope, depth),
        Builtin::Println => {
            let p = print_spec(args, args.len(), runtime, scope, depth);
            match p.result {
                Err(_) => p,
                Ok(_) => done(
                    EltView::Nil,
                    RuntimeView { root: p.runtime.root, output: p.runtime.output + text("\n"@) },
                ),
            }
        },
    }
}

/// The value of a call: the head is evaluated, and what it is decides what
/// becomes of the remaining elements.
pub open spec fn call_spec(
    elts: Seq<EltView>,
    runtime: RuntimeView,
    scope: Map<Seq<char>, EltView>,
    depth: nat,
) -> Outcome
    recommends
        elts.len() > 0,
    decreases depth, 3nat, 0nat,
{
    let head = eval_spec(elts[0], runtime, scope, depth);
    let args = elts.skip(1);
    match head.result {
        Err(_) => head,
        Ok(EltView::Function { lexical_bindings, body }) => {
            let a = eval_args_spec(args, args.len(), head.runtime, scope, depth);
            match a.result {
                Err(e) => fail(e, a.runtime),
                Ok(values) => {
                    if lexical_bindings.len() != values.len() {
                        fail(
                            EvalErrorView::WrongParameterCount {
                                expected: lexical_bindings.len() as usize,
                                received: values.len() as usize,
                            },
                            a.runtime,
                        )
                    } else {
                        eval_spec(
                            *body,
                            a.runtime,
                            bind_spec(scope, lexical_bindings, values, values.len()),
                            depth,
                        )
                    }
                },
            }
        },
        Ok(EltView::Macro { lexical_bindings, body }) => {
            if lexical_bindings.len() != args.len() {
                fail(
                    EvalErrorView::WrongParameterCount {
                        expected: lexical_bindings.len() as usize,
                        received: args.len() as usize,
                    },
                    head.runtime,
                )
            } else {
                eval_spec(
                    expand_spec(*body, lexical_bindings, args, args.len()),
                    head.runtime,
                    scope,
                    depth,
                )
            }
        },
        Ok(EltView::BuiltinFunction(b)) => builtin_spec(b, args, head.runtime, scope, depth),
        Ok(v) => fail(EvalErrorView::NotCallable { value: v }, head.runtime),
    }
}

// ---------------------------------------------------------------------------
// Programs
// ---------------------------------------------------------------------------
/// How running several top-level forms ends, and the state it leaves.
pub struct RunOutcome {
    pub result: Result<(), EvalErrorView>,
    pub runtime: RuntimeView,
}

/// The state after the first `n` top-level forms of `program`: each is evaluated
/// in the root scope as it is when its turn comes, and the first failure ends
/// the run.
pub open spec fn execute_spec(program: Seq<EltView>, n: nat, runtime: RuntimeView, depth: nat) -> RunOutcome
    decreases n,
{
    if n == 0 || n > program.len() {
        RunOutcome { result: Ok(()), runtime }
    } else {
        let before = execute_spec(program, (n - 1) as nat, runtime, depth);
        match before.result {
            Err(_) => before,
            Ok(_) => {
                let o = eval_spec(program[n - 1], before.runtime, before.runtime.root, depth);
                match o.result {
                    Err(e) => RunOutcome { result: Err(e), runtime: o.runtime },
                    Ok(_) => RunOutcome { result: Ok(()), runtime: o.runtime },
                }
            },
        }
    }
}

/// `scope` with every primitive bound to its name.
pub open spec fn with_builtins(scope: Map<Seq<char>, EltView>) -> Map<Seq<char>, EltView> {
    scope.insert("def"@, EltView::BuiltinFunction(Builtin::Def)).insert(
        "quote"@,
        EltView::BuiltinFunction(Builtin::Quote),
    ).insert("fn"@, EltView::BuiltinFunction(Builtin::Fn_)).insert(
        "macro"@,
        EltView::BuiltinFunction(Builtin::Macro),
    ).insert("car"@, EltView::BuiltinFunction(Builtin::Car)).insert(
        "cdr"@,
        EltView::BuiltinFunction(Builtin::Cdr),
    ).insert("cons"@, EltView::BuiltinFunction(Builtin::Cons)).insert(
        "empty?"@,
        EltView::BuiltinFunction(Builtin::Empty_),
    ).insert("if"@, EltView::BuiltinFunction(Builtin::If)).insert(
        "nth"@,
        EltView::BuiltinFunction(Builtin::Nth),
    ).insert("+"@, EltView::BuiltinFunction(Builtin::Plus)).insert(
        "-"@,
        EltView::BuiltinFunction(Builtin::Minus),
    ).insert("*"@, EltView::BuiltinFunction(Builtin::Mult)).insert(
        "/"@,
        EltView::BuiltinFunction(Builtin::Div),
    ).insert("print"@, EltView::BuiltinFunction(Builtin::Print)).insert(
        "println"@,
        EltView::BuiltinFunction(Builtin::Println),
    )
}

// ---------------------------------------------------------------------------
// Messages
// ---------------------------------------------------------------------------
/// The name that the root scope binds a primitive to.
pub open spec fn builtin_symbol(b: Builtin) -> Seq<char> {
    match b {
        Builtin::Print => "print"@,
        Builtin::Println => "println"@,
        Builtin::Def => "def"@,
        Builtin::Quote => "quote"@,
        Builtin::Fn_ => "fn"@,
        Builtin::Macro => "macro"@,
        Builtin::Car => "car"@,
        Builtin::Cdr => "cdr"@,
        Builtin::Cons => "cons"@,
        Builtin::Empty_ => "empty?"@,
        Builtin::If => "if"@,
        Builtin::Nth => "nth"@,
        Builtin::Plus => "+"@,
        Builtin::Minus => "-"@,
        Builtin::Mult => "*"@,
        Builtin::Div => "/"@,
    }
}

/// The message of an evaluation error: text, with the offending value as the
/// printer writes it.
pub open spec fn message_spec(error: EvalErrorView) -> Seq<PieceView> {
    match error {
        EvalErrorView::UndefinedVariable { name } => text("variable "@ + name + " undefined"@),
        EvalErrorView::EmptyCall => text("attempt to evaluate empty list as function"@),
        EvalErrorView::NotCallable { value } => text("attempt to treat "@) + format_spec(value)
            + text(" as function"@),
        EvalErrorView::WrongParameterCount { expected, received } => text(
            "expected "@ + natural_text(expected as nat) + " parameters, received "@
                + natural_text(received as nat),
        ),
        EvalErrorView::WrongArgumentCount { builtin, received } => text(
            builtin_symbol(builtin) + " does not take "@ + natural_text(received as nat)
                + " arguments"@,
        ),
        EvalErrorView::TypeMismatch { builtin, value } => text(
            builtin_symbol(builtin) + " does not accept "@,
        ) + format_spec(value),
        EvalErrorView::EmptyList => text("attempt to car empty list"@),
        EvalErrorView::IndexOutOfRange { index, length } => text(
            "index "@ + decimal_text(index as int) + " out of bounds for a list of length "@
                + natural_text(length as nat),
        ),
        EvalErrorView::Overflow { builtin } => text(
            "integer overflow in "@ + builtin_symbol(builtin),
        ),
        EvalErrorView::DepthExceeded => text("calls nested too deep"@),
    }
}

} // verus!
