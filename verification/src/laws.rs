//! Properties of the checker that hold across its parts: how variable
//! declarations, assignments and implicit contexts behave.

use vstd::prelude::*;
use crate::ast::{
    CallExpr, Condition, DataExpr, ExecutorCall, ExecutorItem, MonitorBlock, NamedArg, Statement, Strategy, VarDecl,
};
use crate::checker::{
    apply_contexts, arity_text, call_params_typed, missing_named, cond_params_typed, conds_params_typed, declare_vars, find_param,
    item_params_typed, items_params_typed, monitor_params_typed, stmt_params_typed, stmts_params_typed,
    var_type_ty, ContextSet, Scope, SymbolMap,
};
use crate::error::ErrorView;
use crate::symbol_table::{executor_params_typed, op_text, ContextInteraction, ContextOp, ParamSpec, SymbolCategory};
use crate::types::Ty;

verus! {

/// After declaring variables, every declared name has a type, and a name's
/// type is that of its last declaration; names not declared keep their
/// earlier types.
pub proof fn lemma_declared_types(vars: Map<Seq<char>, Ty>, decls: Seq<VarDecl>, name: Seq<char>)
    ensures
        (exists|i: int| 0 <= i < decls.len() && (#[trigger] decls[i]).name@ == name) ==> {
            let i = choose|i: int| 0 <= i < decls.len() && (#[trigger] decls[i]).name@ == name
                && forall|j: int| i < j < decls.len() ==> (#[trigger] decls[j]).name@ != name;
            &&& declare_vars(vars, decls).contains_key(name)
            &&& declare_vars(vars, decls)[name] == var_type_ty(decls[i].var_type)
        },
        (forall|i: int| 0 <= i < decls.len() ==> (#[trigger] decls[i]).name@ != name) ==> (
            declare_vars(vars, decls).contains_key(name) == vars.contains_key(name)
            && (vars.contains_key(name) ==> declare_vars(vars, decls)[name] == vars[name])),
    decreases decls.len(),
{
    if decls.len() > 0 {
        let d = decls[0];
        let rest = decls.drop_first();
        let v2 = vars.insert(d.name@, var_type_ty(d.var_type));
        lemma_declared_types(v2, rest, name);
        if exists|i: int| 0 <= i < decls.len() && (#[trigger] decls[i]).name@ == name {
            let i0 = choose|i: int| 0 <= i < decls.len() && (#[trigger] decls[i]).name@ == name;
            let last = last_decl(decls, name, i0);
            let i = choose|i: int| 0 <= i < decls.len() && (#[trigger] decls[i]).name@ == name
                && forall|j: int| i < j < decls.len() ==> (#[trigger] decls[j]).name@ != name;
            assert(i == last) by {
                if i < last {
                    assert(decls[last].name@ == name);
                } else if last < i {
                    assert(decls[i].name@ == name);
                }
            }
            if i == 0 {
                assert forall|k: int| 0 <= k < rest.len() implies (#[trigger] rest[k]).name@ != name by {
                    assert(rest[k] == decls[k + 1]);
                }
            } else {
                assert(rest[i - 1] == decls[i]);
                assert(rest[i - 1].name@ == name);
                assert forall|j: int| i - 1 < j < rest.len() implies (#[trigger] rest[j]).name@ != name by {
                    assert(rest[j] == decls[j + 1]);
                }
                let i2 = choose|k: int| 0 <= k < rest.len() && (#[trigger] rest[k]).name@ == name
                    && forall|j: int| k < j < rest.len() ==> (#[trigger] rest[j]).name@ != name;
                assert(i2 == i - 1) by {
                    if i2 < i - 1 {
                        assert(rest[i - 1].name@ == name);
                    } else if i - 1 < i2 {
                        assert(rest[i2].name@ == name);
                    }
                }
            }
        } else {
            assert(d.name@ != name);
            assert forall|k: int| 0 <= k < rest.len() implies (#[trigger] rest[k]).name@ != name by {
                assert(rest[k] == decls[k + 1]);
            }
        }
    }
}

/// The last declaration of `name` at or after position `a`.
proof fn last_decl(decls: Seq<VarDecl>, name: Seq<char>, a: int) -> (r: int)
    requires
        0 <= a < decls.len(),
        decls[a].name@ == name,
    ensures
        0 <= r < decls.len(),
        decls[r].name@ == name,
        forall|j: int| r < j < decls.len() ==> (#[trigger] decls[j]).name@ != name,
    decreases decls.len() - a,
{
    if exists|j: int| a < j < decls.len() && (#[trigger] decls[j]).name@ == name {
        let j = choose|j: int| a < j < decls.len() && (#[trigger] decls[j]).name@ == name;
        last_decl(decls, name, j)
    } else {
        a
    }
}

/// Declaring the same variables twice gives the same types as declaring
/// them once.
pub proof fn lemma_declare_twice(vars: Map<Seq<char>, Ty>, decls: Seq<VarDecl>)
    ensures
        declare_vars(declare_vars(vars, decls), decls) == declare_vars(vars, decls),
{
    let once = declare_vars(vars, decls);
    let twice = declare_vars(once, decls);
    assert forall|name: Seq<char>| #[trigger] twice.contains_key(name) == once.contains_key(name)
        && (once.contains_key(name) ==> twice[name] == once[name]) by {
        lemma_declared_types(vars, decls, name);
        lemma_declared_types(once, decls, name);
    }
    assert(twice =~= once);
}

/// Checking a strategy a second time with the same checker gives the same
/// verdict as the first time: the variables it declares are already there,
/// with the same types.
pub proof fn lemma_recheck_same_verdict(symbols: SymbolMap, vars: Map<Seq<char>, Ty>, s: Strategy)
    ensures
        (Scope { symbols, vars: declare_vars(declare_vars(vars, s.vars.vars@), s.vars.vars@) }).strategy_check(s)
            == (Scope { symbols, vars: declare_vars(vars, s.vars.vars@) }).strategy_check(s),
{
    lemma_declare_twice(vars, s.vars.vars@);
}

/// An assignment to a variable that is not declared is refused with
/// `UndeclaredVariable`, whatever the value.
pub proof fn lemma_assign_undeclared(scope: Scope, var: Seq<char>, value: DataExpr)
    requires
        !scope.vars.contains_key(var),
    ensures
        scope.assign(var, value) == Err::<(), ErrorView>(ErrorView::UndeclaredVariable { name: var }),
{
}

/// Producing a context that is absent and then consuming it leaves the
/// contexts as they were.
pub proof fn lemma_produce_then_consume(p: ContextInteraction, c: ContextInteraction, symbol: Seq<char>, st: ContextSet)
    requires
        p.op == ContextOp::Produce,
        c.op == ContextOp::Consume,
        p.protocol@ == c.protocol@,
        !st.contains(p.protocol@),
    ensures
        apply_contexts(seq![p, c], symbol, st) == (Ok::<(), ErrorView>(()), st),
{
    reveal_with_fuel(apply_contexts, 3);
    let s = seq![p, c];
    assert(s.drop_first() =~= seq![c]);
    assert(seq![c].drop_first() =~= Seq::<ContextInteraction>::empty());
    assert(st.insert(p.protocol@).remove(p.protocol@) =~= st);
}

/// Producing a context while it is available is refused.
pub proof fn lemma_produce_twice(p: ContextInteraction, symbol: Seq<char>, st: ContextSet)
    requires
        p.op == ContextOp::Produce,
        st.contains(p.protocol@),
    ensures
        apply_contexts(seq![p], symbol, st) == (
            Err::<(), ErrorView>(ErrorView::ContextAlreadyProduced { protocol: p.protocol@, symbol }),
            st,
        ),
{
}

/// A consumed context is gone: consuming it a second time is refused, and
/// the first consumption stands.
pub proof fn lemma_consume_twice(c: ContextInteraction, symbol: Seq<char>, st: ContextSet)
    requires
        c.op == ContextOp::Consume,
    ensures
        apply_contexts(seq![c, c], symbol, st) == (
            Err::<(), ErrorView>(
                ErrorView::ContextNotAvailable { protocol: c.protocol@, symbol, op: op_text(ContextOp::Consume) },
            ),
            st.remove(c.protocol@),
        ),
{
    reveal_with_fuel(apply_contexts, 3);
    let s = seq![c, c];
    assert(s.drop_first() =~= seq![c]);
    assert(seq![c].drop_first() =~= Seq::<ContextInteraction>::empty());
}

/// Reading a context leaves the contexts as they were; reading one that is
/// not available is refused.
pub proof fn lemma_need(n: ContextInteraction, symbol: Seq<char>, st: ContextSet)
    requires
        n.op == ContextOp::Need,
    ensures
        st.contains(n.protocol@) ==> apply_contexts(seq![n], symbol, st) == (Ok::<(), ErrorView>(()), st),
        !st.contains(n.protocol@) ==> apply_contexts(seq![n], symbol, st) == (
            Err::<(), ErrorView>(
                ErrorView::ContextNotAvailable { protocol: n.protocol@, symbol, op: op_text(ContextOp::Need) },
            ),
            st,
        ),
{
    reveal_with_fuel(apply_contexts, 2);
    assert(seq![n].drop_first() =~= Seq::<ContextInteraction>::empty());
}

/// Reading a variable or a data item by name changes no context: it fails
/// where the item reads or consumes a context that is not available, and
/// leaves the contexts as they were either way.
pub proof fn lemma_read_by_name_keeps_contexts(scope: Scope, name: String, st: ContextSet)
    ensures
        scope.expr_ctx(DataExpr::Var(name), st).1 == st,
{
}

/// What a spawned list does to the contexts does not flow back: a `Spawn`
/// statement leaves the contexts as they were, whether it fails or not, and
/// fails exactly where its list fails.
pub proof fn lemma_spawn_isolated(scope: Scope, items: Vec<ExecutorItem>, st: ContextSet)
    ensures
        scope.stmt_ctx(Statement::Spawn { items }, st).1 == st,
        scope.stmt_ctx(Statement::Spawn { items }, st).0 == scope.items_ctx(items@, st).0,
{
}

/// The executors of a conditional statement run on a copy of the contexts:
/// the statement leaves the contexts as its condition left them, whether it
/// fails or not.
pub proof fn lemma_condition_exec_isolated(scope: Scope, condition: Condition, executors: Vec<ExecutorItem>, st: ContextSet)
    ensures
        scope.stmt_ctx(Statement::ConditionExec { condition, executors }, st).1 == scope.cond_ctx(condition, st).1,
{
}

/// The sub-conditions of a combinator each run on a copy of the contexts: a
/// combinator leaves the contexts as they were, whether it fails or not.
pub proof fn lemma_combinator_isolated(scope: Scope, name: String, conditions: Vec<Condition>, st: ContextSet)
    ensures
        scope.cond_ctx(Condition::Combinator { name, conditions }, st).1 == st,
{
}

/// The parameter that `find_param` finds is one of the parameters.
proof fn lemma_find_param_member(params: Seq<ParamSpec>, name: Seq<char>)
    ensures
        find_param(params, name) matches Some(p) ==> exists|j: int| 0 <= j < params.len() && params[j] == p,
    decreases params.len(),
{
    if params.len() > 0 && params[0].name@ != name {
        lemma_find_param_member(params.drop_first(), name);
        if let Some(p) = find_param(params, name) {
            let j = choose|j: int| 0 <= j < params.drop_first().len() && params.drop_first()[j] == p;
            assert(params[j + 1] == p);
        }
    } else if params.len() > 0 {
        assert(params[0] == params[0]);
    }
}

proof fn lemma_item_typed(symbols: SymbolMap, it: ExecutorItem)
    requires
        executor_params_typed(symbols),
    ensures
        item_params_typed(symbols, it),
    decreases it,
{
    match it {
        ExecutorItem::Executor(call) => {
            let key = (call.executor.name@, crate::symbol_table::SymbolCategory::Executor);
            if symbols.contains_key(key) {
                let params = symbols[key].params@;
                assert forall|i: int| 0 <= i < call.args@.len() implies match #[trigger] find_param(params, call.args@[i].0@) {
                    Some(p) => p.allowed_types@.len() > 0,
                    None => true,
                } by {
                    lemma_find_param_member(params, call.args@[i].0@);
                    if let Some(p) = find_param(params, call.args@[i].0@) {
                        let j = choose|j: int| 0 <= j < params.len() && params[j] == p;
                        assert(symbols[key].params@[j].allowed_types@.len() > 0);
                    }
                }
            }
            assert(call_params_typed(symbols, call));
        },
        ExecutorItem::CondExec { condition, executors } => {
            lemma_cond_typed(symbols, condition);
            lemma_items_typed(symbols, executors@);
        },
        _ => {},
    }
}

proof fn lemma_items_typed(symbols: SymbolMap, items: Seq<ExecutorItem>)
    requires
        executor_params_typed(symbols),
    ensures
        items_params_typed(symbols, items),
    decreases items,
{
    if items.len() > 0 {
        lemma_item_typed(symbols, items[0]);
        lemma_items_typed(symbols, items.drop_first());
    }
}

proof fn lemma_cond_typed(symbols: SymbolMap, c: Condition)
    requires
        executor_params_typed(symbols),
    ensures
        cond_params_typed(symbols, c),
    decreases c,
{
    match c {
        Condition::Combinator { name: _, conditions } => lemma_conds_typed(symbols, conditions@),
        Condition::Sequence { items } => lemma_items_typed(symbols, items@),
        Condition::LetBound { targets: _, inner } => lemma_cond_typed(symbols, *inner),
        _ => {},
    }
}

proof fn lemma_conds_typed(symbols: SymbolMap, cs: Seq<Condition>)
    requires
        executor_params_typed(symbols),
    ensures
        conds_params_typed(symbols, cs),
    decreases cs,
{
    if cs.len() > 0 {
        lemma_cond_typed(symbols, cs[0]);
        lemma_conds_typed(symbols, cs.drop_first());
    }
}

proof fn lemma_stmts_typed(symbols: SymbolMap, s: Seq<Statement>)
    requires
        executor_params_typed(symbols),
    ensures
        stmts_params_typed(symbols, s),
    decreases s.len(),
{
    if s.len() > 0 {
        match s[0] {
            Statement::Spawn { items } => lemma_items_typed(symbols, items@),
            Statement::ConditionExec { condition, executors } => {
                lemma_cond_typed(symbols, condition);
                lemma_items_typed(symbols, executors@);
            },
            _ => {},
        }
        assert(stmt_params_typed(symbols, s[0]));
        lemma_stmts_typed(symbols, s.drop_first());
    }
}

/// Over a registry in which every executor parameter accepts some type (as
/// in the built-in registry), every monitor block meets what `check`
/// requires of it.
pub proof fn lemma_typed_registry_admits_every_strategy(symbols: SymbolMap, m: MonitorBlock)
    requires
        executor_params_typed(symbols),
    ensures
        monitor_params_typed(symbols, m),
{
    lemma_stmts_typed(symbols, m.on_trigger.buy@);
    lemma_stmts_typed(symbols, m.on_trigger.buy_else@);
    lemma_stmts_typed(symbols, m.on_trigger.sell@);
    lemma_items_typed(symbols, m.on_trigger.sell_finally@);
}

/// Destructuring a tuple of `n` values into `k` targets with `k != n` is
/// refused with the arity error, whether there are too few targets or too
/// many.
pub proof fn lemma_destructure_arity(scope: Scope, targets: Seq<Option<String>>, value: DataExpr, ts: Seq<Ty>)
    requires
        scope.infer(value) == Ok::<Ty, ErrorView>(Ty::Tuple(ts)),
        targets.len() != ts.len(),
    ensures
        scope.destructure(targets, value) == Err::<(), ErrorView>(
            ErrorView::Custom(arity_text(targets.len(), ts.len())),
        ),
{
}

/// Destructuring a tuple into as many placeholders `_` as it has values is
/// accepted, whatever the values' types.
pub proof fn lemma_destructure_placeholders(scope: Scope, targets: Seq<Option<String>>, value: DataExpr, ts: Seq<Ty>)
    requires
        scope.infer(value) == Ok::<Ty, ErrorView>(Ty::Tuple(ts)),
        targets.len() == ts.len(),
        forall|i: int| 0 <= i < targets.len() ==> #[trigger] targets[i] is None,
    ensures
        scope.destructure(targets, value) == Ok::<(), ErrorView>(()),
{
    lemma_zip_placeholders(scope, targets, ts);
}

proof fn lemma_zip_placeholders(scope: Scope, targets: Seq<Option<String>>, ts: Seq<Ty>)
    requires
        forall|i: int| 0 <= i < targets.len() ==> #[trigger] targets[i] is None,
    ensures
        scope.zip_targets(targets, ts) == Ok::<(), ErrorView>(()),
    decreases targets.len(),
{
    if targets.len() > 0 && ts.len() > 0 {
        assert(targets[0] is None);
        let rest = targets.drop_first();
        assert forall|i: int| 0 <= i < rest.len() implies #[trigger] rest[i] is None by {
            assert(rest[i] == targets[i + 1]);
        }
        lemma_zip_placeholders(scope, rest, ts.drop_first());
    }
}

/// The arguments' expressions are typed in order: where the ones before
/// argument `i` type and argument `i` does not, its error is the outcome;
/// where all of them type, there is no error.
proof fn lemma_named_args_first_error(scope: Scope, args: Seq<NamedArg>, i: int, e: ErrorView)
    requires
        0 <= i < args.len(),
        forall|j: int| 0 <= j < i ==> scope.infer((#[trigger] args[j]).value) is Ok,
        scope.infer(args[i].value) == Err::<Ty, ErrorView>(e),
    ensures
        scope.infer_named_args(args) == Err::<(), ErrorView>(e),
    decreases i,
{
    if i > 0 {
        let rest = args.drop_first();
        assert(scope.infer(args[0].value) is Ok);
        assert forall|j: int| 0 <= j < i - 1 implies scope.infer((#[trigger] rest[j]).value) is Ok by {
            assert(rest[j] == args[j + 1]);
        }
        assert(rest[i - 1] == args[i]);
        lemma_named_args_first_error(scope, rest, i - 1, e);
    }
}

proof fn lemma_named_args_all_typed(scope: Scope, args: Seq<NamedArg>)
    requires
        forall|j: int| 0 <= j < args.len() ==> scope.infer((#[trigger] args[j]).value) is Ok,
    ensures
        scope.infer_named_args(args) == Ok::<(), ErrorView>(()),
    decreases args.len(),
{
    if args.len() > 0 {
        let rest = args.drop_first();
        assert(scope.infer(args[0].value) is Ok);
        assert forall|j: int| 0 <= j < rest.len() implies scope.infer((#[trigger] rest[j]).value) is Ok by {
            assert(rest[j] == args[j + 1]);
        }
        lemma_named_args_all_typed(scope, rest);
    }
}

/// A call of a registered symbol that gives every required parameter fails
/// exactly with the typing error of its first argument that does not type,
/// and succeeds where every argument types.
pub proof fn lemma_call_arguments_are_typed(scope: Scope, call: CallExpr, cat: SymbolCategory, i: int, e: ErrorView)
    requires
        scope.lookup(call.name.name@, cat) is Some,
        missing_named(scope.lookup(call.name.name@, cat)->Some_0.params@, call.args@) is None,
    ensures
        (0 <= i < call.args@.len() && (forall|j: int| 0 <= j < i ==> scope.infer((#[trigger] call.args@[j]).value) is Ok)
            && scope.infer(call.args@[i].value) == Err::<Ty, ErrorView>(e))
            ==> scope.call_check(call, cat) == Err::<(), ErrorView>(e),
        (forall|j: int| 0 <= j < call.args@.len() ==> scope.infer((#[trigger] call.args@[j]).value) is Ok)
            ==> scope.call_check(call, cat) == Ok::<(), ErrorView>(()),
{
    if 0 <= i < call.args@.len() && (forall|j: int| 0 <= j < i ==> scope.infer((#[trigger] call.args@[j]).value) is Ok)
        && scope.infer(call.args@[i].value) == Err::<Ty, ErrorView>(e) {
        lemma_named_args_first_error(scope, call.args@, i, e);
    }
    if forall|j: int| 0 <= j < call.args@.len() ==> scope.infer((#[trigger] call.args@[j]).value) is Ok {
        lemma_named_args_all_typed(scope, call.args@);
    }
}

/// An argument that names neither a declared variable nor a data item makes
/// a call of a registered symbol with its required parameters given fail
/// with `UndeclaredVariable`, where the arguments before it type.
pub proof fn lemma_call_with_undeclared_argument(scope: Scope, call: CallExpr, cat: SymbolCategory, i: int, name: String)
    requires
        scope.lookup(call.name.name@, cat) is Some,
        missing_named(scope.lookup(call.name.name@, cat)->Some_0.params@, call.args@) is None,
        0 <= i < call.args@.len(),
        forall|j: int| 0 <= j < i ==> scope.infer((#[trigger] call.args@[j]).value) is Ok,
        call.args@[i].value == DataExpr::Var(name),
        !scope.vars.contains_key(name@),
        scope.lookup(name@, SymbolCategory::DataItem) is None,
    ensures
        scope.call_check(call, cat) == Err::<(), ErrorView>(ErrorView::UndeclaredVariable { name: name@ }),
{
    lemma_call_arguments_are_typed(scope, call, cat, i, ErrorView::UndeclaredVariable { name: name@ });
}

/// The finally list runs on the contexts that the sell statements leave
/// (after the monitor and the buy statements; the buy-else statements run
/// on their own copy).
pub proof fn lemma_finally_follows_sell(scope: Scope, m: MonitorBlock)
    ensures ({
        let f1 = scope.apply_symbol(m.monitor_call.name.name@, SymbolCategory::Monitor, Set::empty());
        let f2 = scope.stmts_ctx(m.on_trigger.buy@, f1.1);
        let f3 = scope.stmts_ctx(m.on_trigger.sell@, f2.1);
        f1.0 is Ok && f2.0 is Ok && scope.stmts_ctx(m.on_trigger.buy_else@, f2.1).0 is Ok && f3.0 is Ok
            ==> scope.context_flow(m) == scope.items_ctx(m.on_trigger.sell_finally@, f3.1).0
    }),
{
}

/// A context that is gone once the sell statements have run is not
/// available to the finally list: a finally executor that first consumes
/// it makes the check fail.
pub proof fn lemma_finally_sees_sell_consumption(scope: Scope, m: MonitorBlock, call: ExecutorCall, p: Seq<char>)
    requires
        m.on_trigger.sell_finally@.len() > 0,
        m.on_trigger.sell_finally@[0] == ExecutorItem::Executor(call),
        scope.lookup(call.executor.name@, SymbolCategory::Executor) matches Some(meta)
            && meta.contexts@.len() > 0 && meta.contexts@[0].protocol@ == p
            && meta.contexts@[0].op == ContextOp::Consume,
        ({
            let f1 = scope.apply_symbol(m.monitor_call.name.name@, SymbolCategory::Monitor, Set::empty());
            let f2 = scope.stmts_ctx(m.on_trigger.buy@, f1.1);
            let f3 = scope.stmts_ctx(m.on_trigger.sell@, f2.1);
            &&& f1.0 is Ok
            &&& f2.0 is Ok
            &&& scope.stmts_ctx(m.on_trigger.buy_else@, f2.1).0 is Ok
            &&& f3.0 is Ok
            &&& !f3.1.contains(p)
        }),
    ensures
        scope.context_flow(m) == Err::<(), ErrorView>(
            ErrorView::ContextNotAvailable { protocol: p, symbol: call.executor.name@, op: op_text(ContextOp::Consume) },
        ),
{
    lemma_finally_follows_sell(scope, m);
    let f1 = scope.apply_symbol(m.monitor_call.name.name@, SymbolCategory::Monitor, Set::empty());
    let f2 = scope.stmts_ctx(m.on_trigger.buy@, f1.1);
    let st = scope.stmts_ctx(m.on_trigger.sell@, f2.1).1;
    let meta = scope.lookup(call.executor.name@, SymbolCategory::Executor)->Some_0;
    let err = ErrorView::ContextNotAvailable { protocol: p, symbol: call.executor.name@, op: op_text(ContextOp::Consume) };
    assert(apply_contexts(meta.contexts@, call.executor.name@, st) == (Err::<(), ErrorView>(err), st));
    assert(scope.apply_symbol(call.executor.name@, SymbolCategory::Executor, st) == (Err::<(), ErrorView>(err), st));
    assert(scope.item_ctx(ExecutorItem::Executor(call), st) == (Err::<(), ErrorView>(err), st));
    assert(scope.items_ctx(m.on_trigger.sell_finally@, st) == (Err::<(), ErrorView>(err), st));
}

/// The phases of the context flow run in order, each from the contexts the
/// one before left (the buy-else statements from those the buy statements
/// left, on their own copy), and the first phase that fails gives the
/// outcome.
pub proof fn lemma_context_flow_phases(scope: Scope, m: MonitorBlock)
    ensures ({
        let f1 = scope.apply_symbol(m.monitor_call.name.name@, SymbolCategory::Monitor, Set::empty());
        let f2 = scope.stmts_ctx(m.on_trigger.buy@, f1.1);
        let alt = scope.stmts_ctx(m.on_trigger.buy_else@, f2.1);
        let f3 = scope.stmts_ctx(m.on_trigger.sell@, f2.1);
        &&& f1.0 is Err ==> scope.context_flow(m) == f1.0
        &&& f1.0 is Ok && f2.0 is Err ==> scope.context_flow(m) == f2.0
        &&& f1.0 is Ok && f2.0 is Ok && alt.0 is Err ==> scope.context_flow(m) == alt.0
        &&& f1.0 is Ok && f2.0 is Ok && alt.0 is Ok && f3.0 is Err ==> scope.context_flow(m) == f3.0
    }),
{
}

/// The type check of a monitor block runs its parts in order (the monitor
/// call, the buy, buy-else and sell statements, the finally list), and the
/// first part that fails gives the outcome; where none fails it succeeds.
pub proof fn lemma_monitor_check_phases(scope: Scope, m: MonitorBlock)
    ensures ({
        let c = scope.call_check(m.monitor_call, SymbolCategory::Monitor);
        let b = scope.stmts_check(m.on_trigger.buy@);
        let be = scope.stmts_check(m.on_trigger.buy_else@);
        let s = scope.stmts_check(m.on_trigger.sell@);
        let f = scope.items_check(m.on_trigger.sell_finally@);
        &&& c is Err ==> scope.monitor_check(m) == c
        &&& c is Ok && b is Err ==> scope.monitor_check(m) == b
        &&& c is Ok && b is Ok && be is Err ==> scope.monitor_check(m) == be
        &&& c is Ok && b is Ok && be is Ok && s is Err ==> scope.monitor_check(m) == s
        &&& c is Ok && b is Ok && be is Ok && s is Ok ==> scope.monitor_check(m) == f
    }),
{
}

} // verus!
