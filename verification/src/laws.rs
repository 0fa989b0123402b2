//! Laws of the language, proved from the definition of evaluation.
use crate::error::EvalErrorView;
use crate::model::{Builtin, DoubleView, EltView, RuntimeView};
use crate::semantics::{
    bind_spec, builtin_spec, builtin_symbol, call_spec, done, eval_args_spec, eval_spec,
    expand_spec, fail, fold_spec, replace_spec, with_builtins, NumberView,
};
use vstd::prelude::*;

verus! {

/// The call `(+ a b)` of two integers has the value `a + b`, an integer, where
/// the sum fits in 64 bits, and fails with an overflow error where it does not.
/// The state is left as it was.
pub proof fn law_sum_of_integers(
    a: i64,
    b: i64,
    runtime: RuntimeView,
    scope: Map<Seq<char>, EltView>,
    depth: nat,
)
    requires
        depth > 0,
        scope.contains_key("+"@),
        scope["+"@] == EltView::BuiltinFunction(Builtin::Plus),
    ensures
        i64::MIN <= a + b <= i64::MAX ==> eval_spec(
            EltView::List(seq![EltView::Symbol("+"@), EltView::Int(a), EltView::Int(b)]),
            runtime,
            scope,
            depth,
        ) == done(EltView::Int((a + b) as i64), runtime),
        !(i64::MIN <= a + b <= i64::MAX) ==> eval_spec(
            EltView::List(seq![EltView::Symbol("+"@), EltView::Int(a), EltView::Int(b)]),
            runtime,
            scope,
            depth,
        ) == fail(EvalErrorView::Overflow { builtin: Builtin::Plus }, runtime),
{
    let elts = seq![EltView::Symbol("+"@), EltView::Int(a), EltView::Int(b)];
    let args = elts.skip(1);
    let d = (depth - 1) as nat;
    assert(args =~= seq![EltView::Int(a), EltView::Int(b)]);
    reveal_with_fuel(fold_spec, 3);
    assert(fold_spec(Builtin::Plus, args, 1, runtime, scope, d).result == Ok::<
        NumberView,
        EvalErrorView,
    >(NumberView::Int(a)));
    assert(eval_spec(elts[0], runtime, scope, d) == done(
        EltView::BuiltinFunction(Builtin::Plus),
        runtime,
    ));
    assert(call_spec(elts, runtime, scope, d) == builtin_spec(
        Builtin::Plus,
        args,
        runtime,
        scope,
        d,
    ));
}

/// The call `(+ a x)` of an integer and a double has a double as its value: the
/// integer converted, plus `x`. The state is left as it was.
pub proof fn law_sum_of_integer_and_double(
    a: i64,
    x: DoubleView,
    runtime: RuntimeView,
    scope: Map<Seq<char>, EltView>,
    depth: nat,
)
    requires
        depth > 0,
        scope.contains_key("+"@),
        scope["+"@] == EltView::BuiltinFunction(Builtin::Plus),
    ensures
        eval_spec(
            EltView::List(seq![EltView::Symbol("+"@), EltView::Int(a), EltView::Double(x)]),
            runtime,
            scope,
            depth,
        ) == done(
            EltView::Double(DoubleView::Sum(Box::new(DoubleView::FromInt(a)), Box::new(x))),
            runtime,
        ),
{
    let elts = seq![EltView::Symbol("+"@), EltView::Int(a), EltView::Double(x)];
    let args = elts.skip(1);
    let d = (depth - 1) as nat;
    assert(args =~= seq![EltView::Int(a), EltView::Double(x)]);
    reveal_with_fuel(fold_spec, 3);
    assert(fold_spec(Builtin::Plus, args, 1, runtime, scope, d).result == Ok::<
        NumberView,
        EvalErrorView,
    >(NumberView::Int(a)));
    assert(eval_spec(elts[0], runtime, scope, d) == done(
        EltView::BuiltinFunction(Builtin::Plus),
        runtime,
    ));
    assert(call_spec(elts, runtime, scope, d) == builtin_spec(
        Builtin::Plus,
        args,
        runtime,
        scope,
        d,
    ));
}

/// The accumulator of `/` is a double after any number of operands.
pub proof fn lemma_quotient_is_double(
    args: Seq<EltView>,
    n: nat,
    runtime: RuntimeView,
    scope: Map<Seq<char>, EltView>,
    depth: nat,
)
    ensures
        fold_spec(Builtin::Div, args, n, runtime, scope, depth).result matches Ok(acc)
            ==> acc is Double,
    decreases n,
{
    if n != 0 && n <= args.len() {
        lemma_quotient_is_double(args, (n - 1) as nat, runtime, scope, depth);
    }
}

/// Division always gives a double: whatever its arguments are, a value of `/`
/// is never an integer.
pub proof fn law_division_gives_double(
    args: Seq<EltView>,
    runtime: RuntimeView,
    scope: Map<Seq<char>, EltView>,
    depth: nat,
)
    ensures
        builtin_spec(Builtin::Div, args, runtime, scope, depth).result matches Ok(v)
            ==> v is Double,
{
    lemma_quotient_is_double(args, args.len(), runtime, scope, depth);
}

/// `(quote x)` has the value `x` itself, whatever `x` is: nothing in `x` is
/// evaluated and the state is left as it was. Quoting the value again therefore
/// gives the same value again.
pub proof fn law_quote_returns_its_argument(
    x: EltView,
    runtime: RuntimeView,
    scope: Map<Seq<char>, EltView>,
    depth: nat,
)
    requires
        depth > 0,
        scope.contains_key("quote"@),
        scope["quote"@] == EltView::BuiltinFunction(Builtin::Quote),
    ensures
        eval_spec(EltView::List(seq![EltView::Symbol("quote"@), x]), runtime, scope, depth) == done(
            x,
            runtime,
        ),
{
    let elts = seq![EltView::Symbol("quote"@), x];
    let d = (depth - 1) as nat;
    assert(elts.skip(1) =~= seq![x]);
    assert(eval_spec(elts[0], runtime, scope, d) == done(
        EltView::BuiltinFunction(Builtin::Quote),
        runtime,
    ));
    assert(call_spec(elts, runtime, scope, d) == builtin_spec(
        Builtin::Quote,
        elts.skip(1),
        runtime,
        scope,
        d,
    ));
}

/// `(def name e)` binds `name` in the root scope to the value of `e`, whatever
/// the scope of the call is; so a `def` in the body of a function writes the
/// root scope too. Its value is the value of `e`, and a failure of `e` is its
/// failure, with nothing bound.
pub proof fn law_def_writes_the_root_scope(
    name: Seq<char>,
    e: EltView,
    runtime: RuntimeView,
    scope: Map<Seq<char>, EltView>,
    depth: nat,
)
    requires
        depth > 0,
        scope.contains_key("def"@),
        scope["def"@] == EltView::BuiltinFunction(Builtin::Def),
    ensures
        ({
            let inner = eval_spec(e, runtime, scope, (depth - 1) as nat);
            let whole = eval_spec(
                EltView::List(seq![EltView::Symbol("def"@), EltView::Symbol(name), e]),
                runtime,
                scope,
                depth,
            );
            match inner.result {
                Ok(v) => whole == done(
                    v,
                    RuntimeView {
                        root: inner.runtime.root.insert(name, v),
                        output: inner.runtime.output,
                    },
                ),
                Err(_) => whole == inner,
            }
        }),
{
    let elts = seq![EltView::Symbol("def"@), EltView::Symbol(name), e];
    let d = (depth - 1) as nat;
    assert(elts.skip(1) =~= seq![EltView::Symbol(name), e]);
    assert(eval_spec(elts[0], runtime, scope, d) == done(
        EltView::BuiltinFunction(Builtin::Def),
        runtime,
    ));
    assert(call_spec(elts, runtime, scope, d) == builtin_spec(
        Builtin::Def,
        elts.skip(1),
        runtime,
        scope,
        d,
    ));
}

/// A call of a function with a number of arguments other than the number of its
/// parameters fails, once the arguments are evaluated, with the error that names
/// both numbers, and leaves the state that evaluating the arguments leaves. The
/// body is not evaluated, no argument is dropped and no parameter is left
/// unbound.
pub proof fn law_wrong_parameter_count(
    elts: Seq<EltView>,
    runtime: RuntimeView,
    scope: Map<Seq<char>, EltView>,
    depth: nat,
)
    requires
        depth > 0,
        elts.len() > 0,
        eval_spec(elts[0], runtime, scope, (depth - 1) as nat).result matches Ok(f)
            && f is Function,
        eval_args_spec(
            elts.skip(1),
            (elts.len() - 1) as nat,
            eval_spec(elts[0], runtime, scope, (depth - 1) as nat).runtime,
            scope,
            (depth - 1) as nat,
        ).result is Ok,
        eval_spec(
            elts[0],
            runtime,
            scope,
            (depth - 1) as nat,
        ).result->Ok_0->Function_lexical_bindings.len() != elts.len() - 1,
    ensures
        eval_spec(EltView::List(elts), runtime, scope, depth) == fail(
            EvalErrorView::WrongParameterCount {
                expected: eval_spec(
                    elts[0],
                    runtime,
                    scope,
                    (depth - 1) as nat,
                ).result->Ok_0->Function_lexical_bindings.len() as usize,
                received: (elts.len() - 1) as usize,
            },
            eval_args_spec(
                elts.skip(1),
                (elts.len() - 1) as nat,
                eval_spec(elts[0], runtime, scope, (depth - 1) as nat).runtime,
                scope,
                (depth - 1) as nat,
            ).runtime,
        ),
{
    let d = (depth - 1) as nat;
    let head = eval_spec(elts[0], runtime, scope, d);
    let args = elts.skip(1);
    lemma_args_count(args, args.len(), head.runtime, scope, d);
}

/// A call of a function with as many arguments as it has parameters has the
/// value of the body in the scope of the call with each parameter bound to the
/// value of its argument, the arguments evaluated from left to right before.
/// The scope of the call itself is not changed.
pub proof fn law_function_call_evaluates_the_body(
    elts: Seq<EltView>,
    runtime: RuntimeView,
    scope: Map<Seq<char>, EltView>,
    depth: nat,
)
    requires
        depth > 0,
        elts.len() > 0,
        eval_spec(elts[0], runtime, scope, (depth - 1) as nat).result matches Ok(f)
            && f is Function,
        eval_args_spec(
            elts.skip(1),
            (elts.len() - 1) as nat,
            eval_spec(elts[0], runtime, scope, (depth - 1) as nat).runtime,
            scope,
            (depth - 1) as nat,
        ).result is Ok,
        eval_spec(
            elts[0],
            runtime,
            scope,
            (depth - 1) as nat,
        ).result->Ok_0->Function_lexical_bindings.len() == elts.len() - 1,
    ensures
        ({
            let d = (depth - 1) as nat;
            let head = eval_spec(elts[0], runtime, scope, d);
            let arguments = eval_args_spec(
                elts.skip(1),
                (elts.len() - 1) as nat,
                head.runtime,
                scope,
                d,
            );
            let values = arguments.result->Ok_0;
            &&& values.len() == elts.len() - 1
            &&& eval_spec(EltView::List(elts), runtime, scope, depth) == eval_spec(
                *head.result->Ok_0->Function_body,
                arguments.runtime,
                bind_spec(
                    scope,
                    head.result->Ok_0->Function_lexical_bindings,
                    values,
                    values.len(),
                ),
                d,
            )
        }),
{
    let d = (depth - 1) as nat;
    let head = eval_spec(elts[0], runtime, scope, d);
    let args = elts.skip(1);
    lemma_args_count(args, args.len(), head.runtime, scope, d);
}

/// Evaluating the first `n` arguments gives `n` values.
pub proof fn lemma_args_count(
    args: Seq<EltView>,
    n: nat,
    runtime: RuntimeView,
    scope: Map<Seq<char>, EltView>,
    depth: nat,
)
    requires
        n <= args.len(),
    ensures
        eval_args_spec(args, n, runtime, scope, depth).result matches Ok(values) ==> values.len()
            == n,
    decreases n,
{
    if n > 0 {
        lemma_args_count(args, (n - 1) as nat, runtime, scope, depth);
    }
}

/// Replacing a symbol leaves every symbol of another name as it is, and puts
/// the value in place of the symbol itself.
pub proof fn law_replace_touches_only_the_named_symbol(
    s: Seq<char>,
    symbol: Seq<char>,
    value: EltView,
)
    ensures
        s != symbol ==> replace_spec(EltView::Symbol(s), symbol, value) == EltView::Symbol(s),
        replace_spec(EltView::Symbol(symbol), symbol, value) == value,
{
}

/// A macro with the parameter `a` and the body `(+ a a)`, called with the
/// argument `x`, expands to `(+ x x)`, whatever expression `x` is: `x` is put
/// in unevaluated, and the symbol `+` stays as it is.
pub proof fn law_macro_expansion_is_textual(x: EltView)
    ensures
        expand_spec(
            EltView::List(
                seq![EltView::Symbol("+"@), EltView::Symbol("a"@), EltView::Symbol("a"@)],
            ),
            seq!["a"@],
            seq![x],
            1,
        ) == EltView::List(seq![EltView::Symbol("+"@), x, x]),
{
    reveal_strlit("+");
    reveal_strlit("a");
    assert("+"@[0] != "a"@[0]);
    let body = seq![EltView::Symbol("+"@), EltView::Symbol("a"@), EltView::Symbol("a"@)];
    reveal_with_fuel(expand_spec, 2);
    assert("+"@ != "a"@);
    assert(replace_spec(body[0], "a"@, x) == body[0]);
    assert(replace_spec(body[1], "a"@, x) == x);
    assert(replace_spec(body[2], "a"@, x) == x);
    assert(replace_spec(EltView::List(body), "a"@, x)->List_0 =~= seq![
        EltView::Symbol("+"@),
        x,
        x,
    ]);
}

/// With `m` bound to the macro with the parameter `a` and the body `(+ a a)`,
/// the call `(m n)` of an integer has the value `n + n`, where that fits in 64
/// bits.
pub proof fn law_macro_call_doubles(
    n: i64,
    runtime: RuntimeView,
    scope: Map<Seq<char>, EltView>,
    depth: nat,
)
    requires
        depth > 1,
        i64::MIN <= n + n <= i64::MAX,
        scope.contains_key("+"@),
        scope["+"@] == EltView::BuiltinFunction(Builtin::Plus),
        scope.contains_key("m"@),
        scope["m"@] == (EltView::Macro {
            lexical_bindings: seq!["a"@],
            body: Box::new(
                EltView::List(
                    seq![EltView::Symbol("+"@), EltView::Symbol("a"@), EltView::Symbol("a"@)],
                ),
            ),
        }),
    ensures
        eval_spec(
            EltView::List(seq![EltView::Symbol("m"@), EltView::Int(n)]),
            runtime,
            scope,
            depth,
        ) == done(EltView::Int((n + n) as i64), runtime),
{
    let elts = seq![EltView::Symbol("m"@), EltView::Int(n)];
    let d = (depth - 1) as nat;
    assert(elts.skip(1) =~= seq![EltView::Int(n)]);
    law_macro_expansion_is_textual(EltView::Int(n));
    law_sum_of_integers(n, n, runtime, scope, d);
    assert(eval_spec(elts[0], runtime, scope, d) == done(scope["m"@], runtime));
}

/// `(car (cons e (quote ())))` has the value of `e`, and leaves the state that
/// evaluating `e` leaves; a failure of `e` is its failure.
pub proof fn law_car_of_cons(
    e: EltView,
    runtime: RuntimeView,
    scope: Map<Seq<char>, EltView>,
    depth: nat,
)
    requires
        depth > 2,
        scope.contains_key("car"@),
        scope["car"@] == EltView::BuiltinFunction(Builtin::Car),
        scope.contains_key("cons"@),
        scope["cons"@] == EltView::BuiltinFunction(Builtin::Cons),
        scope.contains_key("quote"@),
        scope["quote"@] == EltView::BuiltinFunction(Builtin::Quote),
    ensures
        eval_spec(
            EltView::List(
                seq![
                    EltView::Symbol("car"@),
                    EltView::List(
                        seq![
                            EltView::Symbol("cons"@),
                            e,
                            EltView::List(
                                seq![EltView::Symbol("quote"@), EltView::List(Seq::empty())],
                            ),
                        ],
                    ),
                ],
            ),
            runtime,
            scope,
            depth,
        ) == eval_spec(e, runtime, scope, (depth - 2) as nat),
{
    let quoted = EltView::List(seq![EltView::Symbol("quote"@), EltView::List(Seq::empty())]);
    let inner = seq![EltView::Symbol("cons"@), e, quoted];
    let outer = seq![EltView::Symbol("car"@), EltView::List(inner)];
    let d1 = (depth - 1) as nat;
    let d2 = (depth - 2) as nat;
    let o = eval_spec(e, runtime, scope, d2);
    // the inner call
    assert(inner.skip(1) =~= seq![e, quoted]);
    assert(eval_spec(inner[0], runtime, scope, d2) == done(
        EltView::BuiltinFunction(Builtin::Cons),
        runtime,
    ));
    assert(call_spec(inner, runtime, scope, d2) == builtin_spec(
        Builtin::Cons,
        inner.skip(1),
        runtime,
        scope,
        d2,
    ));
    // the outer call
    assert(outer.skip(1) =~= seq![EltView::List(inner)]);
    assert(eval_spec(outer[0], runtime, scope, d1) == done(
        EltView::BuiltinFunction(Builtin::Car),
        runtime,
    ));
    assert(call_spec(outer, runtime, scope, d1) == builtin_spec(
        Builtin::Car,
        outer.skip(1),
        runtime,
        scope,
        d1,
    ));
    assert(eval_spec(EltView::List(inner), runtime, scope, d1) == call_spec(
        inner,
        runtime,
        scope,
        d2,
    ));
    match o.result {
        Ok(v) => {
            law_quote_returns_its_argument(EltView::List(Seq::empty()), o.runtime, scope, d2);
            assert((seq![v] + Seq::<EltView>::empty())[0] == v);
        },
        Err(_) => {},
    }
}

/// `(car (quote ()))` fails: the empty list has no first item.
pub proof fn law_car_of_the_empty_list_fails(
    runtime: RuntimeView,
    scope: Map<Seq<char>, EltView>,
    depth: nat,
)
    requires
        depth > 1,
        scope.contains_key("car"@),
        scope["car"@] == EltView::BuiltinFunction(Builtin::Car),
        scope.contains_key("quote"@),
        scope["quote"@] == EltView::BuiltinFunction(Builtin::Quote),
    ensures
        eval_spec(
            EltView::List(
                seq![
                    EltView::Symbol("car"@),
                    EltView::List(seq![EltView::Symbol("quote"@), EltView::List(Seq::empty())]),
                ],
            ),
            runtime,
            scope,
            depth,
        ) == fail(EvalErrorView::EmptyList, runtime),
{
    let quoted = EltView::List(seq![EltView::Symbol("quote"@), EltView::List(Seq::empty())]);
    let outer = seq![EltView::Symbol("car"@), quoted];
    let d1 = (depth - 1) as nat;
    law_quote_returns_its_argument(EltView::List(Seq::empty()), runtime, scope, d1);
    assert(outer.skip(1) =~= seq![quoted]);
    assert(eval_spec(outer[0], runtime, scope, d1) == done(
        EltView::BuiltinFunction(Builtin::Car),
        runtime,
    ));
    assert(call_spec(outer, runtime, scope, d1) == builtin_spec(
        Builtin::Car,
        outer.skip(1),
        runtime,
        scope,
        d1,
    ));
}

/// A vector is data: its value is the vector itself, with no item evaluated,
/// and it is never taken for a call.
pub proof fn law_vector_is_its_own_value(
    items: Seq<EltView>,
    runtime: RuntimeView,
    scope: Map<Seq<char>, EltView>,
    depth: nat,
)
    ensures
        eval_spec(EltView::Vector(items), runtime, scope, depth) == done(
            EltView::Vector(items),
            runtime,
        ),
{
}

/// A call of a macro with a number of arguments other than the number of its
/// parameters fails with the error that names both numbers; nothing is
/// expanded or evaluated.
pub proof fn law_wrong_macro_parameter_count(
    elts: Seq<EltView>,
    runtime: RuntimeView,
    scope: Map<Seq<char>, EltView>,
    depth: nat,
)
    requires
        depth > 0,
        elts.len() > 0,
        eval_spec(elts[0], runtime, scope, (depth - 1) as nat).result matches Ok(m) && m is Macro,
        eval_spec(
            elts[0],
            runtime,
            scope,
            (depth - 1) as nat,
        ).result->Ok_0->Macro_lexical_bindings.len() != elts.len() - 1,
    ensures
        eval_spec(EltView::List(elts), runtime, scope, depth) == fail(
            EvalErrorView::WrongParameterCount {
                expected: eval_spec(
                    elts[0],
                    runtime,
                    scope,
                    (depth - 1) as nat,
                ).result->Ok_0->Macro_lexical_bindings.len() as usize,
                received: (elts.len() - 1) as usize,
            },
            eval_spec(elts[0], runtime, scope, (depth - 1) as nat).runtime,
        ),
{
}

/// `(if c a b)` has the value of `b` where the value of `c` is `false` or
/// `nil`, and the value of `a` for every other value of `c`: zero, the empty
/// list and the empty string count as true.
pub proof fn law_if_takes_false_and_nil_for_false(
    c: EltView,
    a: EltView,
    b: EltView,
    runtime: RuntimeView,
    scope: Map<Seq<char>, EltView>,
    depth: nat,
)
    requires
        eval_spec(c, runtime, scope, depth).result is Ok,
    ensures
        ({
            let condition = eval_spec(c, runtime, scope, depth);
            let v = condition.result->Ok_0;
            let whole = builtin_spec(Builtin::If, seq![c, a, b], runtime, scope, depth);
            if v == EltView::Bool(false) || v == EltView::Nil {
                whole == eval_spec(b, condition.runtime, scope, depth)
            } else {
                whole == eval_spec(a, condition.runtime, scope, depth)
            }
        }),
{
}

/// Two primitives have two names.
pub proof fn lemma_builtin_symbols_differ(a: Builtin, b: Builtin)
    ensures
        a != b ==> builtin_symbol(a) != builtin_symbol(b),
{
    reveal_strlit("print");
    reveal_strlit("println");
    reveal_strlit("def");
    reveal_strlit("quote");
    reveal_strlit("fn");
    reveal_strlit("macro");
    reveal_strlit("car");
    reveal_strlit("cdr");
    reveal_strlit("cons");
    reveal_strlit("empty?");
    reveal_strlit("if");
    reveal_strlit("nth");
    reveal_strlit("+");
    reveal_strlit("-");
    reveal_strlit("*");
    reveal_strlit("/");
    // Names of one length differ in their first character, `car` and `cdr` in
    // their second.
    assert(mark("print"@) == (5nat, 'p', 'r'));
    assert(mark("println"@) == (7nat, 'p', 'r'));
    assert(mark("def"@) == (3nat, 'd', 'e'));
    assert(mark("quote"@) == (5nat, 'q', 'u'));
    assert(mark("fn"@) == (2nat, 'f', 'n'));
    assert(mark("macro"@) == (5nat, 'm', 'a'));
    assert(mark("car"@) == (3nat, 'c', 'a'));
    assert(mark("cdr"@) == (3nat, 'c', 'd'));
    assert(mark("cons"@) == (4nat, 'c', 'o'));
    assert(mark("empty?"@) == (6nat, 'e', 'm'));
    assert(mark("if"@) == (2nat, 'i', 'f'));
    assert(mark("nth"@) == (3nat, 'n', 't'));
    assert(mark("+"@) == (1nat, '+', ' '));
    assert(mark("-"@) == (1nat, '-', ' '));
    assert(mark("*"@) == (1nat, '*', ' '));
    assert(mark("/"@) == (1nat, '/', ' '));
}

/// The length of a name and its first two characters, a blank standing for a
/// second character that is not there.
pub open spec fn mark(name: Seq<char>) -> (nat, char, char) {
    (
        name.len(),
        name[0],
        if name.len() > 1 {
            name[1]
        } else {
            ' '
        },
    )
}

/// Binding the primitives binds every primitive to its name, whatever was bound
/// before; so the root scope of a new runtime does.
pub proof fn law_every_primitive_is_bound(scope: Map<Seq<char>, EltView>, b: Builtin)
    ensures
        with_builtins(scope).contains_key(builtin_symbol(b)),
        with_builtins(scope)[builtin_symbol(b)] == EltView::BuiltinFunction(b),
{
    lemma_builtin_symbols_differ(b, Builtin::Print);
    lemma_builtin_symbols_differ(b, Builtin::Println);
    lemma_builtin_symbols_differ(b, Builtin::Def);
    lemma_builtin_symbols_differ(b, Builtin::Quote);
    lemma_builtin_symbols_differ(b, Builtin::Fn_);
    lemma_builtin_symbols_differ(b, Builtin::Macro);
    lemma_builtin_symbols_differ(b, Builtin::Car);
    lemma_builtin_symbols_differ(b, Builtin::Cdr);
    lemma_builtin_symbols_differ(b, Builtin::Cons);
    lemma_builtin_symbols_differ(b, Builtin::Empty_);
    lemma_builtin_symbols_differ(b, Builtin::If);
    lemma_builtin_symbols_differ(b, Builtin::Nth);
    lemma_builtin_symbols_differ(b, Builtin::Plus);
    lemma_builtin_symbols_differ(b, Builtin::Minus);
    lemma_builtin_symbols_differ(b, Builtin::Mult);
    lemma_builtin_symbols_differ(b, Builtin::Div);
}

/// In the root scope of a new runtime, the call `(+ a b)` of two integers whose
/// sum fits in 64 bits has the integer `a + b` as its value, never a double,
/// and leaves the state as it was. The call `(+ a x)` of an integer and a
/// double has the double that is the integer converted, plus `x`.
pub proof fn law_sums_in_a_new_runtime(a: i64, b: i64, x: DoubleView, runtime: RuntimeView, depth: nat)
    requires
        depth > 0,
    ensures
        i64::MIN <= a + b <= i64::MAX ==> eval_spec(
            EltView::List(seq![EltView::Symbol("+"@), EltView::Int(a), EltView::Int(b)]),
            runtime,
            with_builtins(Map::empty()),
            depth,
        ) == done(EltView::Int((a + b) as i64), runtime),
        eval_spec(
            EltView::List(seq![EltView::Symbol("+"@), EltView::Int(a), EltView::Double(x)]),
            runtime,
            with_builtins(Map::empty()),
            depth,
        ) == done(
            EltView::Double(DoubleView::Sum(Box::new(DoubleView::FromInt(a)), Box::new(x))),
            runtime,
        ),
{
    let scope = with_builtins(Map::empty());
    law_every_primitive_is_bound(Map::empty(), Builtin::Plus);
    law_sum_of_integers(a, b, runtime, scope, depth);
    law_sum_of_integer_and_double(a, x, runtime, scope, depth);
}

} // verus!
