//! The depth limit bounds how deep calls nest and decides nothing else: an
//! evaluation that a limit lets through comes out the same under every greater
//! limit.
use crate::error::EvalErrorView;
use crate::model::{Builtin, EltView, RuntimeView};
use crate::semantics::{
    bind_spec, builtin_spec, call_spec, eval_args_spec, eval_spec, execute_spec, expand_spec,
    fold_spec, print_spec, truthy,
};
use vstd::prelude::*;

verus! {

/// Whether an evaluation ended because calls nested deeper than the limit.
pub open spec fn too_deep<T>(result: Result<T, EvalErrorView>) -> bool {
    result == Err::<T, EvalErrorView>(EvalErrorView::DepthExceeded)
}

/// An evaluation that does not end at the depth limit `d` has the same value,
/// or the same failure, and leaves the same state at every depth limit from
/// `d` on.
pub proof fn law_a_greater_depth_limit_changes_nothing(
    value: EltView,
    runtime: RuntimeView,
    scope: Map<Seq<char>, EltView>,
    d: nat,
    e: nat,
)
    requires
        d <= e,
        !too_deep(eval_spec(value, runtime, scope, d).result),
    ensures
        eval_spec(value, runtime, scope, e) == eval_spec(value, runtime, scope, d),
    decreases d, 0nat, 0nat,
{
    match value {
        EltView::List(elts) => {
            if elts.len() > 0 {
                lemma_call_deeper(elts, runtime, scope, (d - 1) as nat, (e - 1) as nat);
            }
        },
        _ => {},
    }
}

/// A run of a program that does not end at the depth limit `d` ends in the same
/// way and leaves the same state at every depth limit from `d` on.
pub proof fn law_a_greater_depth_limit_changes_no_run(
    program: Seq<EltView>,
    n: nat,
    runtime: RuntimeView,
    d: nat,
    e: nat,
)
    requires
        d <= e,
        !too_deep(execute_spec(program, n, runtime, d).result),
    ensures
        execute_spec(program, n, runtime, e) == execute_spec(program, n, runtime, d),
    decreases n,
{
    if n != 0 && n <= program.len() {
        let before = execute_spec(program, (n - 1) as nat, runtime, d);
        law_a_greater_depth_limit_changes_no_run(program, (n - 1) as nat, runtime, d, e);
        if before.result is Ok {
            law_a_greater_depth_limit_changes_nothing(
                program[n - 1],
                before.runtime,
                before.runtime.root,
                d,
                e,
            );
        }
    }
}

proof fn lemma_call_deeper(
    elts: Seq<EltView>,
    runtime: RuntimeView,
    scope: Map<Seq<char>, EltView>,
    d: nat,
    e: nat,
)
    requires
        elts.len() > 0,
        d <= e,
        !too_deep(call_spec(elts, runtime, scope, d).result),
    ensures
        call_spec(elts, runtime, scope, e) == call_spec(elts, runtime, scope, d),
    decreases d, 3nat, 0nat,
{
    let head = eval_spec(elts[0], runtime, scope, d);
    let args = elts.skip(1);
    law_a_greater_depth_limit_changes_nothing(elts[0], runtime, scope, d, e);
    match head.result {
        Err(_) => {},
        Ok(EltView::Function { lexical_bindings, body }) => {
            let a = eval_args_spec(args, args.len(), head.runtime, scope, d);
            lemma_args_deeper(args, args.len(), head.runtime, scope, d, e);
            match a.result {
                Err(_) => {},
                Ok(values) => {
                    if lexical_bindings.len() == values.len() {
                        law_a_greater_depth_limit_changes_nothing(
                            *body,
                            a.runtime,
                            bind_spec(scope, lexical_bindings, values, values.len()),
                            d,
                            e,
                        );
                    }
                },
            }
        },
        Ok(EltView::Macro { lexical_bindings, body }) => {
            if lexical_bindings.len() == args.len() {
                law_a_greater_depth_limit_changes_nothing(
                    expand_spec(*body, lexical_bindings, args, args.len()),
                    head.runtime,
                    scope,
                    d,
                    e,
                );
            }
        },
        Ok(EltView::BuiltinFunction(b)) => {
            lemma_builtin_deeper(b, args, head.runtime, scope, d, e);
        },
        Ok(_) => {},
    }
}

proof fn lemma_args_deeper(
    args: Seq<EltView>,
    n: nat,
    runtime: RuntimeView,
    scope: Map<Seq<char>, EltView>,
    d: nat,
    e: nat,
)
    requires
        d <= e,
        !too_deep(eval_args_spec(args, n, runtime, scope, d).result),
    ensures
        eval_args_spec(args, n, runtime, scope, e) == eval_args_spec(args, n, runtime, scope, d),
    decreases d, 1nat, n,
{
    if n != 0 && n <= args.len() {
        let before = eval_args_spec(args, (n - 1) as nat, runtime, scope, d);
        lemma_args_deeper(args, (n - 1) as nat, runtime, scope, d, e);
        if before.result is Ok {
            law_a_greater_depth_limit_changes_nothing(args[n - 1], before.runtime, scope, d, e);
        }
    }
}

proof fn lemma_fold_deeper(
    op: Builtin,
    args: Seq<EltView>,
    n: nat,
    runtime: RuntimeView,
    scope: Map<Seq<char>, EltView>,
    d: nat,
    e: nat,
)
    requires
        d <= e,
        !too_deep(fold_spec(op, args, n, runtime, scope, d).result),
    ensures
        fold_spec(op, args, n, runtime, scope, e) == fold_spec(op, args, n, runtime, scope, d),
    decreases d, 1nat, n,
{
    if n != 0 && n <= args.len() {
        let before = fold_spec(op, args, (n - 1) as nat, runtime, scope, d);
        lemma_fold_deeper(op, args, (n - 1) as nat, runtime, scope, d, e);
        if before.result is Ok {
            law_a_greater_depth_limit_changes_nothing(args[n - 1], before.runtime, scope, d, e);
        }
    }
}

proof fn lemma_print_deeper(
    args: Seq<EltView>,
    n: nat,
    runtime: RuntimeView,
    scope: Map<Seq<char>, EltView>,
    d: nat,
    e: nat,
)
    requires
        d <= e,
        !too_deep(print_spec(args, n, runtime, scope, d).result),
    ensures
        print_spec(args, n, runtime, scope, e) == print_spec(args, n, runtime, scope, d),
    decreases d, 1nat, n,
{
    if n != 0 && n <= args.len() {
        let before = print_spec(args, (n - 1) as nat, runtime, scope, d);
        lemma_print_deeper(args, (n - 1) as nat, runtime, scope, d, e);
        if before.result is Ok {
            law_a_greater_depth_limit_changes_nothing(args[n - 1], before.runtime, scope, d, e);
        }
    }
}

proof fn lemma_builtin_deeper(
    b: Builtin,
    args: Seq<EltView>,
    runtime: RuntimeView,
    scope: Map<Seq<char>, EltView>,
    d: nat,
    e: nat,
)
    requires
        d <= e,
        !too_deep(builtin_spec(b, args, runtime, scope, d).result),
    ensures
        builtin_spec(b, args, runtime, scope, e) == builtin_spec(b, args, runtime, scope, d),
    decreases d, 2nat, 0nat,
{
    match b {
        Builtin::Def => {
            if args.len() == 2 && args[0] is Symbol {
                law_a_greater_depth_limit_changes_nothing(args[1], runtime, scope, d, e);
            }
        },
        Builtin::Fn_ | Builtin::Macro | Builtin::Quote => {},
        Builtin::If => {
            if 2 <= args.len() <= 3 {
                let c = eval_spec(args[0], runtime, scope, d);
                law_a_greater_depth_limit_changes_nothing(args[0], runtime, scope, d, e);
                match c.result {
                    Err(_) => {},
                    Ok(v) => {
                        if truthy(v) {
                            law_a_greater_depth_limit_changes_nothing(
                                args[1],
                                c.runtime,
                                scope,
                                d,
                                e,
                            );
                        } else if args.len() == 3 {
                            law_a_greater_depth_limit_changes_nothing(
                                args[2],
                                c.runtime,
                                scope,
                                d,
                                e,
                            );
                        }
                    },
                }
            }
        },
        Builtin::Car | Builtin::Cdr | Builtin::Empty_ => {
            if args.len() == 1 {
                law_a_greater_depth_limit_changes_nothing(args[0], runtime, scope, d, e);
            }
        },
        Builtin::Cons => {
            if args.len() == 2 {
                let first = eval_spec(args[0], runtime, scope, d);
                law_a_greater_depth_limit_changes_nothing(args[0], runtime, scope, d, e);
                if first.result is Ok {
                    law_a_greater_depth_limit_changes_nothing(
                        args[1],
                        first.runtime,
                        scope,
                        d,
                        e,
                    );
                }
            }
        },
        Builtin::Nth => {
            if args.len() == 2 {
                let list = eval_spec(args[0], runtime, scope, d);
                law_a_greater_depth_limit_changes_nothing(args[0], runtime, scope, d, e);
                match list.result {
                    Ok(EltView::List(_)) => {
                        law_a_greater_depth_limit_changes_nothing(
                            args[1],
                            list.runtime,
                            scope,
                            d,
                            e,
                        );
                    },
                    _ => {},
                }
            }
        },
        Builtin::Plus | Builtin::Minus | Builtin::Mult | Builtin::Div => {
            lemma_fold_deeper(b, args, args.len(), runtime, scope, d, e);
        },
        Builtin::Print | Builtin::Println => {
            lemma_print_deeper(args, args.len(), runtime, scope, d, e);
        },
    }
}

} // verus!
