use tau::error::EvalError;
use tau::lex::lex;
use tau::model::{Binding, Builtin, Double, Elt, Piece, Runtime, Scope};
use tau::parse::parse;
use tau::runtime::{
    accumulate, eval, execute, format_elt, new, replace_symbol, Number, DEFAULT_DEPTH_LIMIT,
};

fn read(src: &str) -> Vec<Elt> {
    parse(&lex(src.to_string()).unwrap()).unwrap()
}

fn read_one(src: &str) -> Elt {
    let mut forms = read(src);
    assert_eq!(forms.len(), 1);
    forms.remove(0)
}

/// Evaluates the forms of `src` one after the other, each in a copy of the root
/// scope, and gives the value of the last.
fn run_in(runtime: &mut Runtime, src: &str) -> Result<Elt, EvalError> {
    let mut last = Elt::Nil;
    for form in read(src) {
        let scope = runtime.root_scope.clone();
        last = eval(&form, runtime, &scope)?;
    }
    Ok(last)
}

fn run(src: &str) -> Result<Elt, EvalError> {
    run_in(&mut new(), src)
}

fn number(d: &Double) -> f64 {
    match d {
        Double::Literal(text) => text.parse().unwrap(),
        Double::FromInt(i) => *i as f64,
        Double::Sum(a, b) => number(a) + number(b),
        Double::Difference(a, b) => number(a) - number(b),
        Double::Product(a, b) => number(a) * number(b),
        Double::Quotient(a, b) => number(a) / number(b),
    }
}

fn double_of(value: &Elt) -> f64 {
    match value {
        Elt::Double(d) => number(d),
        other => panic!("no double: {:?}", other),
    }
}

fn render(pieces: &[Piece]) -> String {
    let mut out = String::new();
    for piece in pieces {
        match piece {
            Piece::Text(text) => out.push_str(text),
            Piece::Number(d) => out.push_str(&format!("{}", number(d))),
        }
    }
    out
}

fn show(src: &str) -> String {
    render(&format_elt(&run(src).unwrap()))
}

fn symbol(name: &str) -> Elt {
    Elt::Symbol(name.to_string())
}

fn call(name: &str, args: Vec<Elt>) -> Elt {
    let mut elts = vec![symbol(name)];
    elts.extend(args);
    Elt::List(elts)
}

fn literal(text: &str) -> Elt {
    Elt::Double(Double::Literal(text.to_string()))
}

// ---------------------------------------------------------------------------
// Self-evaluating values and symbols
// ---------------------------------------------------------------------------
#[test]
fn atoms_are_their_own_value() {
    assert_eq!(run("5"), Ok(Elt::Int(5)));
    assert_eq!(run("\"s\""), Ok(Elt::String_("s".to_string())));
    assert_eq!(run("1.5"), Ok(literal("1.5")));
    let mut runtime = new();
    let scope = Scope::new();
    for value in [Elt::Bool(true), Elt::Bool(false), Elt::Nil, Elt::BuiltinFunction(Builtin::Car)] {
        assert_eq!(eval(&value, &mut runtime, &scope), Ok(value.clone()));
    }
}

#[test]
fn vector_is_returned_as_it_is() {
    assert_eq!(
        run("[a (+ 1 2) undefined]"),
        Ok(Elt::Vector(vec![
            symbol("a"),
            Elt::List(vec![symbol("+"), Elt::Int(1), Elt::Int(2)]),
            symbol("undefined"),
        ]))
    );
}

#[test]
fn functions_and_macros_are_their_own_value() {
    let mut runtime = new();
    let scope = Scope::new();
    let function =
        Elt::Function { lexical_bindings: vec!["a".to_string()], body: Box::new(symbol("a")) };
    let a_macro =
        Elt::Macro { lexical_bindings: vec!["a".to_string()], body: Box::new(symbol("a")) };
    assert_eq!(eval(&function, &mut runtime, &scope), Ok(function.clone()));
    assert_eq!(eval(&a_macro, &mut runtime, &scope), Ok(a_macro.clone()));
}

#[test]
fn symbol_has_the_value_the_scope_binds() {
    let mut runtime = new();
    let mut scope = Scope::new();
    scope.insert("x".to_string(), Elt::Int(3));
    assert_eq!(eval(&symbol("x"), &mut runtime, &scope), Ok(Elt::Int(3)));
}

#[test]
fn symbol_is_looked_up_in_the_scope_not_in_the_root() {
    let mut runtime = new();
    runtime.root_scope.insert("x".to_string(), Elt::Int(3));
    let scope = Scope::new();
    assert_eq!(
        eval(&symbol("x"), &mut runtime, &scope),
        Err(EvalError::UndefinedVariable { name: "x".to_string() })
    );
}

#[test]
fn undefined_variable() {
    let error = run("nowhere").unwrap_err();
    assert_eq!(error, EvalError::UndefinedVariable { name: "nowhere".to_string() });
    assert_eq!(render(&error.message()), "variable nowhere undefined");
}

#[test]
fn later_binding_replaces_earlier() {
    let mut scope = Scope::new();
    scope.insert("x".to_string(), Elt::Int(1));
    scope.insert("y".to_string(), Elt::Int(2));
    scope.insert("x".to_string(), Elt::Int(3));
    assert_eq!(scope.get(&"x".to_string()), Some(&Elt::Int(3)));
    assert_eq!(scope.get(&"y".to_string()), Some(&Elt::Int(2)));
    assert_eq!(scope.get(&"z".to_string()), None);
    let copy = scope.clone();
    assert_eq!(copy.get(&"x".to_string()), Some(&Elt::Int(3)));
    assert_eq!(copy, scope);
    assert_eq!(
        Scope { bindings: vec![Binding { name: "a".to_string(), value: Elt::Nil }] }
            .get(&"a".to_string()),
        Some(&Elt::Nil)
    );
}

// ---------------------------------------------------------------------------
// Calls
// ---------------------------------------------------------------------------
#[test]
fn empty_list_is_no_call() {
    let error = run("()").unwrap_err();
    assert_eq!(error, EvalError::EmptyCall);
    assert_eq!(render(&error.message()), "attempt to evaluate empty list as function");
}

#[test]
fn calling_a_value_that_is_no_function() {
    let error = run("(1 2 3)").unwrap_err();
    assert_eq!(error, EvalError::NotCallable { value: Elt::Int(1) });
    assert_eq!(render(&error.message()), "attempt to treat 1 as function");
    assert_eq!(
        run("(\"f\" 1)"),
        Err(EvalError::NotCallable { value: Elt::String_("f".to_string()) })
    );
    assert_eq!(run("([a] 1)"), Err(EvalError::NotCallable { value: Elt::Vector(vec![symbol("a")]) }));
}

#[test]
fn failure_of_the_head_is_the_failure_of_the_call() {
    assert_eq!(run("(f 1)"), Err(EvalError::UndefinedVariable { name: "f".to_string() }));
}

#[test]
fn function_call_binds_parameters() {
    assert_eq!(run("((fn [a b] (- a b)) 10 3)"), Ok(Elt::Int(7)));
}

#[test]
fn function_arguments_are_evaluated_left_to_right() {
    let mut runtime = new();
    assert_eq!(
        run_in(&mut runtime, "((fn [a b] b) (print 1) (print 2))"),
        Ok(Elt::Nil)
    );
    assert_eq!(render(&runtime.output), "12");
}

#[test]
fn function_sees_the_scope_of_the_call() {
    assert_eq!(
        run("(def f (fn [] x)) (def g (fn [x] (f))) (g 5)"),
        Ok(Elt::Int(5))
    );
}

#[test]
fn parameter_shadows_a_root_binding() {
    assert_eq!(run("(def x 1) ((fn [x] x) 2)"), Ok(Elt::Int(2)));
    assert_eq!(run("(def x 1) ((fn [x] x) 2) x"), Ok(Elt::Int(1)));
}

#[test]
fn later_parameter_of_the_same_name_wins() {
    assert_eq!(run("((fn [a a] a) 1 2)"), Ok(Elt::Int(2)));
}

#[test]
fn function_with_too_few_arguments() {
    let error = run("(def f (fn [a b] a)) (f 1)").unwrap_err();
    assert_eq!(error, EvalError::WrongParameterCount { expected: 2, received: 1 });
    assert_eq!(render(&error.message()), "expected 2 parameters, received 1");
}

#[test]
fn function_with_too_many_arguments() {
    assert_eq!(
        run("(def f (fn [a b] a)) (f 1 2 3)"),
        Err(EvalError::WrongParameterCount { expected: 2, received: 3 })
    );
    assert_eq!(
        run("((fn [] 1) 2)"),
        Err(EvalError::WrongParameterCount { expected: 0, received: 1 })
    );
}

#[test]
fn arguments_are_evaluated_before_the_count_is_checked() {
    let mut runtime = new();
    assert_eq!(
        run_in(&mut runtime, "((fn [a] a) (print 1) (print 2))"),
        Err(EvalError::WrongParameterCount { expected: 1, received: 2 })
    );
    assert_eq!(render(&runtime.output), "12");
    assert_eq!(
        run("((fn [a] a) 1 nowhere)"),
        Err(EvalError::UndefinedVariable { name: "nowhere".to_string() })
    );
}

#[test]
fn recursion() {
    assert_eq!(
        run(
            "(def len (fn [l] (if (empty? l) 0 (+ 1 (len (cdr l))))))
             (len '(a b c d e))"
        ),
        Ok(Elt::Int(5))
    );
}

// ---------------------------------------------------------------------------
// Macros
// ---------------------------------------------------------------------------
#[test]
fn macro_expands_textually() {
    assert_eq!(run("(def m (macro [a] (+ a a))) (m 3)"), Ok(Elt::Int(6)));
}

#[test]
fn macro_arguments_are_not_evaluated_before_expansion() {
    let mut runtime = new();
    assert_eq!(
        run_in(&mut runtime, "(def twice (macro [e] (if e e))) (twice (print 1))"),
        Ok(Elt::Bool(false))
    );
    // `(print 1)` stands twice in the expansion; `nil` is false, so only the
    // condition is evaluated.
    assert_eq!(render(&runtime.output), "1");
    assert_eq!(
        run("(def first (macro [a b] a)) (first 1 (nowhere))"),
        Ok(Elt::Int(1))
    );
}

#[test]
fn macro_expansion_is_evaluated_in_the_scope_of_the_call() {
    assert_eq!(
        run("(def m (macro [a] (+ a x))) ((fn [x] (m 1)) 10)"),
        Ok(Elt::Int(11))
    );
}

#[test]
fn macro_with_wrong_number_of_arguments() {
    assert_eq!(
        run("(def m (macro [a] a)) (m 1 2)"),
        Err(EvalError::WrongParameterCount { expected: 1, received: 2 })
    );
    assert_eq!(
        run("(def m (macro [a] a)) (m)"),
        Err(EvalError::WrongParameterCount { expected: 1, received: 0 })
    );
}

#[test]
fn macro_replaces_only_symbols_of_that_name() {
    assert_eq!(
        run("(def x 5) (def ab 100) (def m (macro [a] (+ a ab a))) (m x)"),
        Ok(Elt::Int(110))
    );
}

#[test]
fn replace_symbol_goes_through_lists_and_vectors() {
    let body = read_one("(+ a (ab a) [a \"a\" b] 1 'a)");
    let replaced = replace_symbol(&body, &"a".to_string(), &symbol("x"));
    assert_eq!(replaced, read_one("(+ x (ab x) [x \"a\" b] 1 'x)"));
}

#[test]
fn replace_symbol_puts_in_whole_expressions() {
    let body = read_one("(a a)");
    let replaced = replace_symbol(&body, &"a".to_string(), &read_one("(f a)"));
    assert_eq!(replaced, read_one("((f a) (f a))"));
}

#[test]
fn replace_symbol_leaves_functions_alone() {
    let function =
        Elt::Function { lexical_bindings: vec!["a".to_string()], body: Box::new(symbol("a")) };
    assert_eq!(replace_symbol(&function, &"a".to_string(), &Elt::Int(1)), function);
    assert_eq!(replace_symbol(&symbol("a"), &"a".to_string(), &Elt::Int(1)), Elt::Int(1));
    assert_eq!(replace_symbol(&symbol("b"), &"a".to_string(), &Elt::Int(1)), symbol("b"));
    assert_eq!(
        replace_symbol(&Elt::String_("a".to_string()), &"a".to_string(), &Elt::Int(1)),
        Elt::String_("a".to_string())
    );
}

#[test]
fn macro_parameters_are_replaced_one_after_the_other() {
    // The first replacement brings in a `b`, which the second replaces.
    assert_eq!(run("(def m (macro [a b] (+ a b))) (m b 2)"), Ok(Elt::Int(4)));
}

// ---------------------------------------------------------------------------
// def, fn, macro, quote, if
// ---------------------------------------------------------------------------
#[test]
fn def_binds_in_the_root_scope() {
    assert_eq!(run("(def x 5) (+ x 1)"), Ok(Elt::Int(6)));
}

#[test]
fn def_returns_the_value() {
    assert_eq!(run("(def x (+ 2 3))"), Ok(Elt::Int(5)));
}

#[test]
fn def_inside_a_function_writes_the_root_scope() {
    let mut runtime = new();
    assert_eq!(run_in(&mut runtime, "(def f (fn [v] (def y v))) (f 7)"), Ok(Elt::Int(7)));
    assert_eq!(runtime.root_scope.get(&"y".to_string()), Some(&Elt::Int(7)));
    assert_eq!(run_in(&mut runtime, "y"), Ok(Elt::Int(7)));
}

#[test]
fn def_is_not_seen_in_the_scope_of_the_form_that_makes_it() {
    assert_eq!(
        run("((fn [] (if (def z 1) z)))"),
        Err(EvalError::UndefinedVariable { name: "z".to_string() })
    );
}

#[test]
fn def_replaces_an_earlier_definition() {
    assert_eq!(run("(def x 1) (def x 2) x"), Ok(Elt::Int(2)));
}

#[test]
fn def_needs_two_arguments() {
    let error = run("(def x)").unwrap_err();
    assert_eq!(error, EvalError::WrongArgumentCount { builtin: Builtin::Def, received: 1 });
    assert_eq!(render(&error.message()), "def does not take 1 arguments");
    assert_eq!(
        run("(def x 1 2)"),
        Err(EvalError::WrongArgumentCount { builtin: Builtin::Def, received: 3 })
    );
}

#[test]
fn def_needs_a_symbol() {
    let error = run("(def \"x\" 1)").unwrap_err();
    assert_eq!(
        error,
        EvalError::TypeMismatch { builtin: Builtin::Def, value: Elt::String_("x".to_string()) }
    );
    assert_eq!(render(&error.message()), "def does not accept x");
}

#[test]
fn def_of_a_failing_expression_binds_nothing() {
    let mut runtime = new();
    assert_eq!(
        run_in(&mut runtime, "(def x nowhere)"),
        Err(EvalError::UndefinedVariable { name: "nowhere".to_string() })
    );
    assert_eq!(runtime.root_scope.get(&"x".to_string()), None);
}

#[test]
fn fn_makes_a_function() {
    assert_eq!(
        run("(fn [a b] (+ a b))"),
        Ok(Elt::Function {
            lexical_bindings: vec!["a".to_string(), "b".to_string()],
            body: Box::new(read_one("(+ a b)")),
        })
    );
}

#[test]
fn macro_makes_a_macro() {
    assert_eq!(
        run("(macro [a] (+ a a))"),
        Ok(Elt::Macro {
            lexical_bindings: vec!["a".to_string()],
            body: Box::new(read_one("(+ a a)")),
        })
    );
}

#[test]
fn fn_needs_a_vector_of_symbols() {
    assert_eq!(
        run("(fn (a) a)"),
        Err(EvalError::TypeMismatch { builtin: Builtin::Fn_, value: read_one("(a)") })
    );
    assert_eq!(
        run("(fn [a 1] a)"),
        Err(EvalError::TypeMismatch { builtin: Builtin::Fn_, value: read_one("[a 1]") })
    );
    assert_eq!(
        run("(macro [a \"b\"] a)"),
        Err(EvalError::TypeMismatch { builtin: Builtin::Macro, value: read_one("[a \"b\"]") })
    );
    assert_eq!(
        run("(macro x a)"),
        Err(EvalError::TypeMismatch { builtin: Builtin::Macro, value: symbol("x") })
    );
}

#[test]
fn fn_needs_two_arguments() {
    assert_eq!(
        run("(fn [a])"),
        Err(EvalError::WrongArgumentCount { builtin: Builtin::Fn_, received: 1 })
    );
    assert_eq!(
        run("(macro [a] a a)"),
        Err(EvalError::WrongArgumentCount { builtin: Builtin::Macro, received: 3 })
    );
}

#[test]
fn quote_returns_its_argument_unevaluated() {
    assert_eq!(
        run("(quote (1 2 3))"),
        Ok(Elt::List(vec![Elt::Int(1), Elt::Int(2), Elt::Int(3)]))
    );
    assert_eq!(run("'(f x)"), Ok(Elt::List(vec![symbol("f"), symbol("x")])));
    assert_eq!(run("'x"), Ok(symbol("x")));
}

#[test]
fn quoting_the_quoted_value_again_gives_it_again() {
    let first = run("(quote (1 2 3))").unwrap();
    let mut runtime = new();
    let scope = runtime.root_scope.clone();
    let again = eval(&call("quote", vec![first.clone()]), &mut runtime, &scope).unwrap();
    assert_eq!(again, first);
}

#[test]
fn quote_needs_one_argument() {
    assert_eq!(
        run("(quote)"),
        Err(EvalError::WrongArgumentCount { builtin: Builtin::Quote, received: 0 })
    );
    assert_eq!(
        run("(quote a b)"),
        Err(EvalError::WrongArgumentCount { builtin: Builtin::Quote, received: 2 })
    );
}

#[test]
fn if_takes_the_branch_of_the_condition() {
    assert_eq!(run("(if (empty? '()) 1 2)"), Ok(Elt::Int(1)));
    assert_eq!(run("(if (empty? '(1)) 1 2)"), Ok(Elt::Int(2)));
}

#[test]
fn if_without_else_gives_false() {
    assert_eq!(run("(if (empty? '(1)) 1)"), Ok(Elt::Bool(false)));
    assert_eq!(run("(if (empty? '()) 1)"), Ok(Elt::Int(1)));
}

#[test]
fn only_false_and_nil_are_false() {
    assert_eq!(run("(if 0 1 2)"), Ok(Elt::Int(1)));
    assert_eq!(run("(if '() 1 2)"), Ok(Elt::Int(1)));
    assert_eq!(run("(if \"\" 1 2)"), Ok(Elt::Int(1)));
    assert_eq!(run("(if 0.0 1 2)"), Ok(Elt::Int(1)));
    assert_eq!(run("(if [] 1 2)"), Ok(Elt::Int(1)));
    assert_eq!(run("(if (print) 1 2)"), Ok(Elt::Int(2)));
    assert_eq!(run("(if (if (print) 1) 1 2)"), Ok(Elt::Int(2)));
}

#[test]
fn if_evaluates_one_branch_only() {
    assert_eq!(run("(if 1 2 nowhere)"), Ok(Elt::Int(2)));
    assert_eq!(run("(if (print) nowhere 3)"), Ok(Elt::Int(3)));
}

#[test]
fn if_needs_two_or_three_arguments() {
    assert_eq!(
        run("(if 1)"),
        Err(EvalError::WrongArgumentCount { builtin: Builtin::If, received: 1 })
    );
    assert_eq!(
        run("(if 1 2 3 4)"),
        Err(EvalError::WrongArgumentCount { builtin: Builtin::If, received: 4 })
    );
}

// ---------------------------------------------------------------------------
// Lists
// ---------------------------------------------------------------------------
#[test]
fn car_of_cons() {
    assert_eq!(run("(car (cons 1 (quote ())))"), Ok(Elt::Int(1)));
}

#[test]
fn car_of_the_empty_list_fails() {
    let error = run("(car (quote ()))").unwrap_err();
    assert_eq!(error, EvalError::EmptyList);
    assert_eq!(render(&error.message()), "attempt to car empty list");
}

#[test]
fn car_gives_the_first_item() {
    assert_eq!(run("(car '(a b c))"), Ok(symbol("a")));
}

#[test]
fn car_needs_a_list() {
    let error = run("(car 5)").unwrap_err();
    assert_eq!(error, EvalError::TypeMismatch { builtin: Builtin::Car, value: Elt::Int(5) });
    assert_eq!(render(&error.message()), "car does not accept 5");
    assert_eq!(
        run("(car [1 2])"),
        Err(EvalError::TypeMismatch { builtin: Builtin::Car, value: read_one("[1 2]") })
    );
    assert_eq!(
        run("(car)"),
        Err(EvalError::WrongArgumentCount { builtin: Builtin::Car, received: 0 })
    );
}

#[test]
fn cdr_gives_all_but_the_first_item() {
    assert_eq!(run("(cdr '(a b c))"), Ok(Elt::List(vec![symbol("b"), symbol("c")])));
    assert_eq!(run("(cdr '(a))"), Ok(Elt::List(vec![])));
}

#[test]
fn cdr_of_the_empty_list_is_the_empty_list() {
    assert_eq!(run("(cdr '())"), Ok(Elt::List(vec![])));
}

#[test]
fn cdr_needs_a_list() {
    assert_eq!(
        run("(cdr \"abc\")"),
        Err(EvalError::TypeMismatch {
            builtin: Builtin::Cdr,
            value: Elt::String_("abc".to_string())
        })
    );
    assert_eq!(
        run("(cdr '(1) '(2))"),
        Err(EvalError::WrongArgumentCount { builtin: Builtin::Cdr, received: 2 })
    );
}

#[test]
fn cons_puts_a_value_before_a_list() {
    assert_eq!(
        run("(cons 1 '(2 3))"),
        Ok(Elt::List(vec![Elt::Int(1), Elt::Int(2), Elt::Int(3)]))
    );
    assert_eq!(
        run("(cons '(1) '(2))"),
        Ok(Elt::List(vec![Elt::List(vec![Elt::Int(1)]), Elt::Int(2)]))
    );
}

#[test]
fn cons_needs_a_list_second() {
    assert_eq!(
        run("(cons 1 2)"),
        Err(EvalError::TypeMismatch { builtin: Builtin::Cons, value: Elt::Int(2) })
    );
    assert_eq!(
        run("(cons 1)"),
        Err(EvalError::WrongArgumentCount { builtin: Builtin::Cons, received: 1 })
    );
}

#[test]
fn empty_tells_whether_a_list_has_no_item() {
    assert_eq!(run("(empty? '())"), Ok(Elt::Bool(true)));
    assert_eq!(run("(empty? '(1))"), Ok(Elt::Bool(false)));
    assert_eq!(run("(empty? (cdr '(1)))"), Ok(Elt::Bool(true)));
}

#[test]
fn empty_needs_a_list() {
    assert_eq!(
        run("(empty? 0)"),
        Err(EvalError::TypeMismatch { builtin: Builtin::Empty_, value: Elt::Int(0) })
    );
    assert_eq!(
        run("(empty?)"),
        Err(EvalError::WrongArgumentCount { builtin: Builtin::Empty_, received: 0 })
    );
}

#[test]
fn nth_gives_the_item_at_an_index() {
    assert_eq!(run("(nth '(a b c) 0)"), Ok(symbol("a")));
    assert_eq!(run("(nth '(a b c) 2)"), Ok(symbol("c")));
    assert_eq!(run("(nth '(a b c) (+ 0 1))"), Ok(symbol("b")));
}

#[test]
fn nth_out_of_range() {
    let error = run("(nth '(a b c) 3)").unwrap_err();
    assert_eq!(error, EvalError::IndexOutOfRange { index: 3, length: 3 });
    assert_eq!(render(&error.message()), "index 3 out of bounds for a list of length 3");
    assert_eq!(
        run("(nth '() 0)"),
        Err(EvalError::IndexOutOfRange { index: 0, length: 0 })
    );
    let negative = run("(nth '(a b) (- 0 1))").unwrap_err();
    assert_eq!(negative, EvalError::IndexOutOfRange { index: -1, length: 2 });
    assert_eq!(render(&negative.message()), "index -1 out of bounds for a list of length 2");
}

#[test]
fn nth_needs_a_list_and_an_integer() {
    assert_eq!(
        run("(nth 5 0)"),
        Err(EvalError::TypeMismatch { builtin: Builtin::Nth, value: Elt::Int(5) })
    );
    assert_eq!(
        run("(nth '(a) 0.0)"),
        Err(EvalError::TypeMismatch { builtin: Builtin::Nth, value: literal("0.0") })
    );
    assert_eq!(
        run("(nth '(a))"),
        Err(EvalError::WrongArgumentCount { builtin: Builtin::Nth, received: 1 })
    );
}

#[test]
fn nth_does_not_evaluate_the_index_of_a_value_that_is_no_list() {
    assert_eq!(
        run("(nth 5 nowhere)"),
        Err(EvalError::TypeMismatch { builtin: Builtin::Nth, value: Elt::Int(5) })
    );
}

// ---------------------------------------------------------------------------
// Arithmetic
// ---------------------------------------------------------------------------
#[test]
fn sum_of_two_integers() {
    let pairs: [(i64, i64); 7] =
        [(0, 0), (1, 2), (-5, 3), (40, -2), (i64::MAX, 0), (i64::MAX, i64::MIN), (i64::MIN, 1)];
    for (a, b) in pairs {
        let mut runtime = new();
        let scope = runtime.root_scope.clone();
        let form = call("+", vec![Elt::Int(a), Elt::Int(b)]);
        assert_eq!(eval(&form, &mut runtime, &scope), Ok(Elt::Int(a + b)));
    }
}

#[test]
fn sum_of_an_integer_and_a_double() {
    for a in [0i64, 1, -7, 1 << 40] {
        let mut runtime = new();
        let scope = runtime.root_scope.clone();
        let form = call("+", vec![Elt::Int(a), literal("1.0")]);
        let value = eval(&form, &mut runtime, &scope).unwrap();
        assert_eq!(
            value,
            Elt::Double(Double::Sum(
                Box::new(Double::FromInt(a)),
                Box::new(Double::Literal("1.0".to_string()))
            ))
        );
        assert_eq!(double_of(&value), a as f64 + 1.0);
    }
}

#[test]
fn sum_out_of_range_is_an_error() {
    let mut runtime = new();
    let scope = runtime.root_scope.clone();
    let form = call("+", vec![Elt::Int(i64::MAX), Elt::Int(1)]);
    let error = eval(&form, &mut runtime, &scope).unwrap_err();
    assert_eq!(error, EvalError::Overflow { builtin: Builtin::Plus });
    assert_eq!(render(&error.message()), "integer overflow in +");
    let form = call("-", vec![Elt::Int(i64::MIN), Elt::Int(1)]);
    assert_eq!(
        eval(&form, &mut runtime, &scope),
        Err(EvalError::Overflow { builtin: Builtin::Minus })
    );
    let form = call("*", vec![Elt::Int(i64::MAX), Elt::Int(2)]);
    assert_eq!(
        eval(&form, &mut runtime, &scope),
        Err(EvalError::Overflow { builtin: Builtin::Mult })
    );
    let form = call("*", vec![Elt::Int(i64::MIN), Elt::Int(-1)]);
    assert_eq!(
        eval(&form, &mut runtime, &scope),
        Err(EvalError::Overflow { builtin: Builtin::Mult })
    );
}

#[test]
fn sum_folds_over_all_arguments() {
    assert_eq!(run("(+)"), Ok(Elt::Int(0)));
    assert_eq!(run("(+ 5)"), Ok(Elt::Int(5)));
    assert_eq!(run("(+ 1 2 3 4)"), Ok(Elt::Int(10)));
    assert_eq!(run("(+ 1 (+ 2 3))"), Ok(Elt::Int(6)));
}

#[test]
fn difference_is_seeded_by_the_first_argument() {
    assert_eq!(run("(-)"), Ok(Elt::Int(0)));
    assert_eq!(run("(- 5)"), Ok(Elt::Int(5)));
    assert_eq!(run("(- 10 3)"), Ok(Elt::Int(7)));
    assert_eq!(run("(- 10 3 2)"), Ok(Elt::Int(5)));
    assert_eq!(run("(- 3 10)"), Ok(Elt::Int(-7)));
}

#[test]
fn product_folds_over_all_arguments() {
    assert_eq!(run("(*)"), Ok(Elt::Int(1)));
    assert_eq!(run("(* 5)"), Ok(Elt::Int(5)));
    assert_eq!(run("(* 2 3 4)"), Ok(Elt::Int(24)));
    assert_eq!(run("(* 2 0)"), Ok(Elt::Int(0)));
}

#[test]
fn a_double_operand_makes_the_result_a_double() {
    assert_eq!(double_of(&run("(+ 1 2 0.5)").unwrap()), 3.5);
    assert_eq!(double_of(&run("(+ 0.5 1 2)").unwrap()), 3.5);
    assert_eq!(double_of(&run("(+ 1 0.5 2)").unwrap()), 3.5);
    assert_eq!(double_of(&run("(- 10 0.5)").unwrap()), 9.5);
    assert_eq!(double_of(&run("(- 0.5 10)").unwrap()), -9.5);
    assert_eq!(double_of(&run("(- 2.5)").unwrap()), 2.5);
    assert_eq!(double_of(&run("(* 3 0.5 4)").unwrap()), 6.0);
    assert_eq!(double_of(&run("(* 2.5)").unwrap()), 2.5);
    assert_eq!(double_of(&run("(+ 2.5)").unwrap()), 2.5);
    assert_eq!(double_of(&run("(+ 0.1 0.2)").unwrap()), 0.1 + 0.2);
}

#[test]
fn a_double_accumulator_takes_integers_that_would_overflow() {
    let mut runtime = new();
    let scope = runtime.root_scope.clone();
    let form = call("+", vec![literal("0.5"), Elt::Int(i64::MAX), Elt::Int(i64::MAX)]);
    let value = eval(&form, &mut runtime, &scope).unwrap();
    assert_eq!(double_of(&value), 0.5 + i64::MAX as f64 + i64::MAX as f64);
}

#[test]
fn division_always_gives_a_double() {
    let value = run("(/ 4 2)").unwrap();
    assert_eq!(
        value,
        Elt::Double(Double::Quotient(Box::new(Double::FromInt(4)), Box::new(Double::FromInt(2))))
    );
    assert_eq!(double_of(&value), 2.0);
    assert_ne!(value, Elt::Int(2));
    assert_eq!(run("(/ 8)"), Ok(Elt::Double(Double::FromInt(8))));
    assert_eq!(run("(/)"), Ok(Elt::Double(Double::FromInt(0))));
    assert_eq!(double_of(&run("(/)").unwrap()), 0.0);
}

#[test]
fn division_folds_from_the_left() {
    assert_eq!(double_of(&run("(/ 100 5 2)").unwrap()), 10.0);
    assert_eq!(double_of(&run("(/ 1 2)").unwrap()), 0.5);
    assert_eq!(double_of(&run("(/ 1.5 2)").unwrap()), 0.75);
    assert_eq!(double_of(&run("(/ 3 1.5)").unwrap()), 2.0);
    assert_eq!(double_of(&run("(/ 7.5)").unwrap()), 7.5);
    assert_eq!(double_of(&run("(/ 1 0)").unwrap()), f64::INFINITY);
    assert!(double_of(&run("(/ 0 0)").unwrap()).is_nan());
}

#[test]
fn arithmetic_on_a_value_that_is_no_number() {
    let error = run("(+ 1 \"a\")").unwrap_err();
    assert_eq!(
        error,
        EvalError::TypeMismatch { builtin: Builtin::Plus, value: Elt::String_("a".to_string()) }
    );
    assert_eq!(render(&error.message()), "+ does not accept a");
    assert_eq!(
        run("(- '(1))"),
        Err(EvalError::TypeMismatch { builtin: Builtin::Minus, value: read_one("(1)") })
    );
    assert_eq!(
        run("(* 2 [1])"),
        Err(EvalError::TypeMismatch { builtin: Builtin::Mult, value: read_one("[1]") })
    );
    assert_eq!(
        run("(/ 2 (print))"),
        Err(EvalError::TypeMismatch { builtin: Builtin::Div, value: Elt::Nil })
    );
}

#[test]
fn arithmetic_checks_each_operand_before_the_next_is_evaluated() {
    let mut runtime = new();
    assert_eq!(
        run_in(&mut runtime, "(+ \"a\" (print 1))"),
        Err(EvalError::TypeMismatch { builtin: Builtin::Plus, value: Elt::String_("a".to_string()) })
    );
    assert_eq!(render(&runtime.output), "");
}

#[test]
fn accumulate_takes_one_operand() {
    assert_eq!(accumulate(Builtin::Plus, true, Number::Int(2), Elt::Int(3)), Ok(Number::Int(5)));
    assert_eq!(accumulate(Builtin::Minus, true, Number::Int(0), Elt::Int(3)), Ok(Number::Int(3)));
    assert_eq!(accumulate(Builtin::Minus, false, Number::Int(2), Elt::Int(3)), Ok(Number::Int(-1)));
    assert_eq!(accumulate(Builtin::Mult, false, Number::Int(2), Elt::Int(3)), Ok(Number::Int(6)));
    assert_eq!(
        accumulate(Builtin::Div, true, Number::Double(Double::FromInt(0)), Elt::Int(3)),
        Ok(Number::Double(Double::FromInt(3)))
    );
    assert_eq!(
        accumulate(Builtin::Div, false, Number::Double(Double::FromInt(6)), Elt::Int(3)),
        Ok(Number::Double(Double::Quotient(
            Box::new(Double::FromInt(6)),
            Box::new(Double::FromInt(3))
        )))
    );
    assert_eq!(
        accumulate(Builtin::Mult, false, Number::Int(2), literal("1.5")),
        Ok(Number::Double(Double::Product(
            Box::new(Double::FromInt(2)),
            Box::new(Double::Literal("1.5".to_string()))
        )))
    );
    assert_eq!(
        accumulate(Builtin::Plus, false, Number::Int(i64::MIN), Elt::Int(-1)),
        Err(EvalError::Overflow { builtin: Builtin::Plus })
    );
    assert_eq!(
        accumulate(Builtin::Plus, false, Number::Int(1), Elt::Nil),
        Err(EvalError::TypeMismatch { builtin: Builtin::Plus, value: Elt::Nil })
    );
}

// ---------------------------------------------------------------------------
// Printing
// ---------------------------------------------------------------------------
#[test]
fn print_writes_its_arguments_with_spaces_between() {
    let mut runtime = new();
    assert_eq!(run_in(&mut runtime, "(print 1 \"a\" 'b (+ 1 1))"), Ok(Elt::Nil));
    assert_eq!(render(&runtime.output), "1 a b 2");
}

#[test]
fn println_ends_the_line() {
    let mut runtime = new();
    assert_eq!(run_in(&mut runtime, "(println 1 2) (println) (print 3)"), Ok(Elt::Nil));
    assert_eq!(render(&runtime.output), "1 2\n\n3");
}

#[test]
fn print_writes_doubles_as_numbers() {
    let mut runtime = new();
    run_in(&mut runtime, "(print (/ 1 4) (+ 1 0.5) 2.0)").unwrap();
    assert_eq!(
        runtime.output,
        vec![
            Piece::Number(Double::Quotient(
                Box::new(Double::FromInt(1)),
                Box::new(Double::FromInt(4))
            )),
            Piece::Text(" ".to_string()),
            Piece::Number(Double::Sum(
                Box::new(Double::FromInt(1)),
                Box::new(Double::Literal("0.5".to_string()))
            )),
            Piece::Text(" ".to_string()),
            Piece::Number(Double::Literal("2.0".to_string())),
        ]
    );
    assert_eq!(render(&runtime.output), "0.25 1.5 2");
}

#[test]
fn print_keeps_what_was_written_before_a_failure() {
    let mut runtime = new();
    assert_eq!(
        run_in(&mut runtime, "(println 1 2 nowhere 4)"),
        Err(EvalError::UndefinedVariable { name: "nowhere".to_string() })
    );
    assert_eq!(render(&runtime.output), "1 2");
}

#[test]
fn output_goes_on_from_what_was_written() {
    let mut runtime = new();
    runtime.output.push(Piece::Text("> ".to_string()));
    run_in(&mut runtime, "(print 1)").unwrap();
    assert_eq!(render(&runtime.output), "> 1");
}

#[test]
fn format_of_atoms() {
    assert_eq!(show("5"), "5");
    assert_eq!(show("(- 0 17)"), "-17");
    assert_eq!(show("\"a b\""), "a b");
    assert_eq!(show("'sym"), "sym");
    assert_eq!(show("(print)"), "nil");
    assert_eq!(show("(empty? '())"), "true");
    assert_eq!(show("(empty? '(1))"), "false");
    assert_eq!(show("1.5"), "1.5");
}

#[test]
fn format_of_integers() {
    for i in [0i64, 7, 10, 99, 100, -1, -10, 1234567890, i64::MAX, i64::MIN, i64::MIN + 1] {
        assert_eq!(format_elt(&Elt::Int(i)), vec![Piece::Text(i.to_string())]);
    }
}

#[test]
fn format_of_lists_and_vectors() {
    assert_eq!(show("'()"), "()");
    assert_eq!(show("[]"), "[]");
    assert_eq!(show("'(1)"), "(1)");
    assert_eq!(show("'(1 2 3)"), "(1 2 3)");
    assert_eq!(show("[a \"b\" 3]"), "[a b 3]");
    assert_eq!(show("'(1 (2 [3 4]) () 5.5)"), "(1 (2 [3 4]) () 5.5)");
}

#[test]
fn format_of_callables() {
    assert_eq!(show("(fn [a] a)"), "<function>");
    assert_eq!(show("(macro [a] a)"), "<macro>");
    assert_eq!(show("car"), "<builtin function Car>");
    assert_eq!(show("empty?"), "<builtin function Empty_>");
    assert_eq!(show("fn"), "<builtin function Fn_>");
    assert_eq!(show("+"), "<builtin function Plus>");
    assert_eq!(show("(cons car '())"), "(<builtin function Car>)");
}

#[test]
fn format_gives_pieces() {
    assert_eq!(
        format_elt(&read_one("(a 1.5)")),
        vec![
            Piece::Text("(".to_string()),
            Piece::Text("a".to_string()),
            Piece::Text(" ".to_string()),
            Piece::Number(Double::Literal("1.5".to_string())),
            Piece::Text(")".to_string()),
        ]
    );
}

// ---------------------------------------------------------------------------
// The runtime
// ---------------------------------------------------------------------------
#[test]
fn new_runtime_binds_the_primitives() {
    let runtime = new();
    let names = [
        ("def", Builtin::Def),
        ("quote", Builtin::Quote),
        ("fn", Builtin::Fn_),
        ("macro", Builtin::Macro),
        ("car", Builtin::Car),
        ("cdr", Builtin::Cdr),
        ("cons", Builtin::Cons),
        ("empty?", Builtin::Empty_),
        ("if", Builtin::If),
        ("nth", Builtin::Nth),
        ("+", Builtin::Plus),
        ("-", Builtin::Minus),
        ("*", Builtin::Mult),
        ("/", Builtin::Div),
        ("print", Builtin::Print),
        ("println", Builtin::Println),
    ];
    for (name, builtin) in names {
        assert_eq!(
            runtime.root_scope.get(&name.to_string()),
            Some(&Elt::BuiltinFunction(builtin))
        );
    }
    assert_eq!(runtime.root_scope.bindings.len(), names.len());
    assert_eq!(runtime.output, vec![]);
    assert_eq!(runtime.depth_limit, DEFAULT_DEPTH_LIMIT);
}

#[test]
fn primitives_can_be_rebound_and_passed_around() {
    assert_eq!(run("(def plus +) (plus 1 2)"), Ok(Elt::Int(3)));
    assert_eq!(run("((fn [f] (f 2 3)) *)"), Ok(Elt::Int(6)));
    assert_eq!(run("(def car cdr) (car '(1 2))"), Ok(Elt::List(vec![Elt::Int(2)])));
}

#[test]
fn execute_runs_all_forms() {
    let mut runtime = new();
    assert_eq!(execute(&mut runtime, read("(def x 1) (def y (+ x 1)) (print y)")), Ok(()));
    assert_eq!(runtime.root_scope.get(&"y".to_string()), Some(&Elt::Int(2)));
    assert_eq!(render(&runtime.output), "2");
}

#[test]
fn execute_stops_at_the_first_failure() {
    let mut runtime = new();
    assert_eq!(
        execute(&mut runtime, read("(def x 1) (car x) (def y 2)")),
        Err(EvalError::TypeMismatch { builtin: Builtin::Car, value: Elt::Int(1) })
    );
    assert_eq!(runtime.root_scope.get(&"x".to_string()), Some(&Elt::Int(1)));
    assert_eq!(runtime.root_scope.get(&"y".to_string()), None);
}

#[test]
fn execute_of_nothing() {
    let mut runtime = new();
    assert_eq!(execute(&mut runtime, vec![]), Ok(()));
    assert_eq!(runtime, new());
}

#[test]
fn a_failure_leaves_the_runtime_usable() {
    let mut runtime = new();
    assert!(run_in(&mut runtime, "(car 1)").is_err());
    assert_eq!(run_in(&mut runtime, "(+ 1 2)"), Ok(Elt::Int(3)));
}

#[test]
fn endless_recursion_ends_with_an_error_under_a_limit() {
    let mut runtime = new();
    runtime.depth_limit = 500;
    let error = run_in(&mut runtime, "(def f (fn [] (f))) (f)").unwrap_err();
    assert_eq!(error, EvalError::DepthExceeded);
    assert_eq!(render(&error.message()), "calls nested too deep");
    assert_eq!(runtime.depth_limit, 500);
}

#[test]
fn a_new_runtime_has_no_limit_but_the_machine() {
    assert_eq!(DEFAULT_DEPTH_LIMIT, usize::MAX);
    let mut runtime = new();
    let items: Vec<String> = (0..300).map(|i| i.to_string()).collect();
    let src = format!(
        "(def count (fn [l] (if (empty? l) 0 (+ 1 (count (cdr l))))))
         (count '({}))",
        items.join(" ")
    );
    assert_eq!(run_in(&mut runtime, &src), Ok(Elt::Int(300)));
}

#[test]
fn a_greater_limit_changes_nothing() {
    let src = "(def count (fn [l] (if (empty? l) 0 (+ 1 (count (cdr l))))))
               (println (count '(a b c d e)) (/ 1 2))
               (def seen (count '(1 2 3)))
               (car seen)";
    let mut outcomes = vec![];
    for limit in [40usize, 41, 100, 5000, usize::MAX] {
        let mut runtime = new();
        runtime.depth_limit = limit;
        let result = execute(&mut runtime, read(src));
        outcomes.push((result, runtime.root_scope, runtime.output));
    }
    assert_eq!(
        outcomes[0].0,
        Err(EvalError::TypeMismatch { builtin: Builtin::Car, value: Elt::Int(3) })
    );
    assert_eq!(render(&outcomes[0].2), "5 0.5\n");
    for outcome in &outcomes[1..] {
        assert_eq!(outcome, &outcomes[0]);
    }
    let mut runtime = new();
    runtime.depth_limit = 5;
    assert_eq!(execute(&mut runtime, read(src)), Err(EvalError::DepthExceeded));
}

#[test]
fn depth_limit_counts_nested_calls() {
    let mut runtime = new();
    let scope = runtime.root_scope.clone();
    runtime.depth_limit = 0;
    assert_eq!(eval(&Elt::Int(1), &mut runtime, &scope), Ok(Elt::Int(1)));
    assert_eq!(eval(&symbol("car"), &mut runtime, &scope), Ok(Elt::BuiltinFunction(Builtin::Car)));
    assert_eq!(eval(&read_one("(+ 1 2)"), &mut runtime, &scope), Err(EvalError::DepthExceeded));
    assert_eq!(eval(&read_one("()"), &mut runtime, &scope), Err(EvalError::EmptyCall));
    runtime.depth_limit = 1;
    assert_eq!(eval(&read_one("(+ 1 2)"), &mut runtime, &scope), Ok(Elt::Int(3)));
    assert_eq!(
        eval(&read_one("(+ 1 (+ 1 1))"), &mut runtime, &scope),
        Err(EvalError::DepthExceeded)
    );
    runtime.depth_limit = 2;
    assert_eq!(eval(&read_one("(+ 1 (+ 1 1))"), &mut runtime, &scope), Ok(Elt::Int(3)));
    assert_eq!(runtime.depth_limit, 2);
}

#[test]
fn deep_recursion_within_the_limit() {
    let mut runtime = new();
    runtime.depth_limit = 2000;
    assert_eq!(
        run_in(
            &mut runtime,
            "(def count (fn [n] (if (empty? n) 0 (+ 1 (count (cdr n))))))
             (count '(1 2 3 4 5 6 7 8 9 10 11 12 13 14 15 16 17 18 19 20))"
        ),
        Ok(Elt::Int(20))
    );
}

#[test]
fn a_library_of_definitions() {
    let mut runtime = new();
    let definitions = "
        (def true (empty? '()))
        (def false (empty? '(0)))
        (def nil (print))
        (def not (fn [x] (if x false true)))
        (def and (macro [a b] (if a b false)))
        (def or (macro [a b] (if a true b)))
        (def defn (macro [name params body] (def name (fn params body))))
        (defn inc [n] (+ n 1))
        (defn dec [n] (- n 1))
        (defn length [l] (if (empty? l) 0 (+ 1 (length (cdr l)))))
        (defn map [f l] (if (empty? l) '() (cons (f (car l)) (map f (cdr l)))))
        (defn fold [f acc l] (if (empty? l) acc (fold f (f acc (car l)) (cdr l))))
    ";
    assert_eq!(execute(&mut runtime, read(definitions)), Ok(()));
    assert_eq!(runtime.output, vec![]);
    assert_eq!(run_in(&mut runtime, "true"), Ok(Elt::Bool(true)));
    assert_eq!(run_in(&mut runtime, "false"), Ok(Elt::Bool(false)));
    assert_eq!(run_in(&mut runtime, "nil"), Ok(Elt::Nil));
    assert_eq!(run_in(&mut runtime, "(not nil)"), Ok(Elt::Bool(true)));
    assert_eq!(run_in(&mut runtime, "(not 0)"), Ok(Elt::Bool(false)));
    assert_eq!(run_in(&mut runtime, "(and true 5)"), Ok(Elt::Int(5)));
    assert_eq!(run_in(&mut runtime, "(and false nowhere)"), Ok(Elt::Bool(false)));
    assert_eq!(run_in(&mut runtime, "(or false 5)"), Ok(Elt::Int(5)));
    assert_eq!(run_in(&mut runtime, "(or 1 nowhere)"), Ok(Elt::Bool(true)));
    assert_eq!(run_in(&mut runtime, "(inc 41)"), Ok(Elt::Int(42)));
    assert_eq!(run_in(&mut runtime, "(dec 0)"), Ok(Elt::Int(-1)));
    assert_eq!(run_in(&mut runtime, "(length '(a b c))"), Ok(Elt::Int(3)));
    assert_eq!(
        run_in(&mut runtime, "(map inc '(1 2 3))"),
        Ok(Elt::List(vec![Elt::Int(2), Elt::Int(3), Elt::Int(4)]))
    );
    assert_eq!(run_in(&mut runtime, "(fold + 0 '(1 2 3 4))"), Ok(Elt::Int(10)));
    assert_eq!(double_of(&run_in(&mut runtime, "(fold / 64 '(2 4))").unwrap()), 8.0);
}

#[test]
fn recursion_as_deep_as_the_limit_allows() {
    let mut runtime = new();
    runtime.depth_limit = 1000;
    run_in(
        &mut runtime,
        "(def down (fn [l] (if (empty? l) 0 (down (cdr l)))))",
    )
    .unwrap();
    // Each call of `down` nests two calls that stay open while the next `down`
    // runs: `down` itself and `if`.
    let items = vec![Elt::Int(0); 498];
    let scope = runtime.root_scope.clone();
    let form = call("down", vec![call("quote", vec![Elt::List(items)])]);
    assert_eq!(eval(&form, &mut runtime, &scope), Ok(Elt::Int(0)));
    let items = vec![Elt::Int(0); 500];
    let form = call("down", vec![call("quote", vec![Elt::List(items)])]);
    assert_eq!(eval(&form, &mut runtime, &scope), Err(EvalError::DepthExceeded));
}

#[test]
fn runtime_can_be_copied() {
    let mut runtime = new();
    runtime.depth_limit = 77;
    run_in(&mut runtime, "(def x 1) (print x 2.5)").unwrap();
    let copy = runtime.clone();
    assert_eq!(copy, runtime);
    assert_eq!(copy.depth_limit, 77);
    run_in(&mut runtime, "(def x 2)").unwrap();
    assert_eq!(copy.root_scope.get(&"x".to_string()), Some(&Elt::Int(1)));
    assert_eq!(render(&copy.output), "1 2.5");
}

#[test]
fn redefinition_binds_no_name_twice() {
    let mut runtime = new();
    let before = runtime.root_scope.bindings.len();
    run_in(&mut runtime, "(def x 1) (def y 2) (def x 3) (def + -)").unwrap();
    assert_eq!(runtime.root_scope.bindings.len(), before + 2);
    assert_eq!(run_in(&mut runtime, "(+ x y)"), Ok(Elt::Int(1)));
    let mut scope = Scope::new();
    scope.insert("a".to_string(), Elt::Int(1));
    scope.insert("b".to_string(), Elt::Int(2));
    scope.insert("a".to_string(), Elt::Int(3));
    assert_eq!(
        scope.bindings,
        vec![
            Binding { name: "a".to_string(), value: Elt::Int(3) },
            Binding { name: "b".to_string(), value: Elt::Int(2) },
        ]
    );
}

#[test]
fn scopes_are_equal_when_they_bind_the_same() {
    let mut a = Scope::new();
    a.insert("x".to_string(), Elt::Int(1));
    a.insert("y".to_string(), read_one("(f [1 2.5] \"s\")"));
    let mut b = Scope::new();
    b.insert("y".to_string(), read_one("(f [1 2.5] \"s\")"));
    b.insert("x".to_string(), Elt::Int(0));
    assert_ne!(a, b);
    b.insert("x".to_string(), Elt::Int(1));
    assert_eq!(a, b);
    assert_ne!(a.bindings, b.bindings);
    b.insert("z".to_string(), Elt::Nil);
    assert_ne!(a, b);
    assert_ne!(b, a);
    assert_eq!(Scope::new(), Scope { bindings: vec![] });
    // a binding that a later one of the same name hides does not count
    let hidden = Scope {
        bindings: vec![
            Binding { name: "x".to_string(), value: Elt::Nil },
            Binding { name: "y".to_string(), value: read_one("(f [1 2.5] \"s\")") },
            Binding { name: "x".to_string(), value: Elt::Int(1) },
        ],
    };
    assert_eq!(hidden, a);
    assert_eq!(a, hidden);
}

#[test]
fn runtimes_are_equal_whatever_the_order_of_definitions() {
    let mut a = new();
    let mut b = new();
    run_in(&mut a, "(def x 1) (def y 2)").unwrap();
    run_in(&mut b, "(def y 2) (def x 1)").unwrap();
    assert_eq!(a, b);
    run_in(&mut b, "(print 1)").unwrap();
    assert_ne!(a, b);
    run_in(&mut a, "(print 1)").unwrap();
    assert_eq!(a, b);
    a.depth_limit = 10;
    assert_ne!(a, b);
}

#[test]
fn values_are_equal_when_they_are_built_alike() {
    assert_eq!(read_one("(a [b 1 \"c\"] 2.5 ())"), read_one("(a [b 1 \"c\"] 2.5 ())"));
    assert_ne!(read_one("(a b)"), read_one("[a b]"));
    assert_ne!(read_one("(a b)"), read_one("(a b c)"));
    assert_ne!(read_one("(a (b))"), read_one("(a (c))"));
    assert_ne!(read_one("a"), read_one("\"a\""));
    assert_ne!(read_one("1"), read_one("1.0"));
    assert_ne!(read_one("1.0"), read_one("1.00"));
    assert_ne!(Elt::Bool(true), Elt::Bool(false));
    assert_ne!(Elt::Nil, Elt::Bool(false));
    assert_eq!(run("(fn [a b] (a b))"), run("(fn [a b] (a b))"));
    assert_ne!(run("(fn [a b] (a b))"), run("(fn [a c] (a b))"));
    assert_ne!(run("(fn [a b] (a b))"), run("(fn [a b] (b a))"));
    assert_ne!(run("(fn [a] a)"), run("(macro [a] a)"));
    assert_ne!(run("car"), run("cdr"));
    assert_eq!(run("(/ 1 2)"), run("(/ 1 2)"));
    assert_ne!(run("(/ 1 2)"), run("(/ 2 4)"));
    assert_ne!(run("(+ 1 0.5)"), run("(- 1 0.5)"));
    assert_eq!(
        Piece::Number(Double::FromInt(1)),
        Piece::Number(Double::FromInt(1))
    );
    assert_ne!(Piece::Number(Double::FromInt(1)), Piece::Text("1".to_string()));
}
