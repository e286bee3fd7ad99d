//! The semantic checker: variable typing, symbol use, required parameters,
//! and the flow of implicit contexts through a strategy.

use vstd::prelude::*;
use crate::ast::{
    binop_text, BinOp, CallExpr, Condition, DataExpr, ExecutorCall, ExecutorItem, MonitorBlock,
    NamedArg, Statement, Strategy, Value, VarDecl, VarType, VarsBlock,
};
use crate::error::{result_view, ty_result_view, CheckError, CheckResult, ErrorView};
use crate::symbol_table::{
    op_text, spec_accepts, ContextInteraction, ContextOp, ParamSpec, SymbolCategory,
    SymbolMetadata, SymbolRegistry,
};
use crate::text::{decimal, push_decimal, str_eq};
use crate::types::{
    lemma_tys_of, spec_binary_op, spec_compare_op, spec_is_compatible, tys_of, ty_text, Ty,
    TypeChecker, TypeSpec,
};

verus! {

// ── The model ────────────────────────────────────────────────────────────────

/// The registered symbols, by name and category.
pub type SymbolMap = Map<(Seq<char>, SymbolCategory), SymbolMetadata>;

/// The implicit contexts that are available at a point of a strategy, by
/// protocol name.
pub type ContextSet = Set<Seq<char>>;

/// What a check sees: the registered symbols and the declared variables'
/// types.
pub struct Scope {
    pub symbols: SymbolMap,
    pub vars: Map<Seq<char>, Ty>,
}

/// The type of a variable of the given declared type.
pub open spec fn var_type_ty(t: VarType) -> Ty {
    match t {
        VarType::Price => Ty::Price,
        VarType::Amount => Ty::Amount,
        VarType::Duration => Ty::Duration,
        VarType::TimePoint => Ty::TimePoint,
        VarType::Percent => Ty::Percent,
        VarType::Count => Ty::Count,
        VarType::Number => Ty::Number,
        VarType::Address => Ty::Address,
    }
}

/// The variable types after declaring `decls` in order (a later declaration
/// of a name overrides an earlier one).
pub open spec fn declare_vars(vars: Map<Seq<char>, Ty>, decls: Seq<VarDecl>) -> Map<Seq<char>, Ty>
    decreases decls.len(),
{
    if decls.len() == 0 {
        vars
    } else {
        declare_vars(vars.insert(decls[0].name@, var_type_ty(decls[0].var_type)), decls.drop_first())
    }
}

/// The type of a literal: a list's type is that of its first element
/// (`Any` when empty); a map and an uninitialised value have type `Any`.
pub open spec fn lit_ty(v: Value) -> Ty
    decreases v,
{
    match v {
        Value::Number(_) => Ty::Number,
        Value::String(_) => Ty::String,
        Value::Bool(_) => Ty::Bool,
        Value::Percent(_) => Ty::Percent,
        Value::Duration(_) => Ty::Duration,
        Value::Amount(_, _) => Ty::Amount,
        Value::List(items) => Ty::List(
            Box::new(
                if items@.len() > 0 {
                    lit_ty(items[0])
                } else {
                    Ty::Any
                },
            ),
        ),
        Value::Mapping(_) => Ty::Any,
        Value::Tuple(items) => Ty::Tuple(lit_tys(items@)),
        Value::Uninit => Ty::Any,
    }
}

/// The types of a sequence of literals, element by element.
pub open spec fn lit_tys(s: Seq<Value>) -> Seq<Ty>
    decreases s,
{
    if s.len() == 0 {
        Seq::empty()
    } else {
        seq![lit_ty(s[0])] + lit_tys(s.drop_first())
    }
}

/// The message for a data item without a value type.
pub open spec fn no_return_item_text(name: Seq<char>) -> Seq<char> {
    "DataItem '"@ + name + "' has no return type"@
}

/// The message for a called symbol without a value type.
pub open spec fn no_return_call_text(name: Seq<char>) -> Seq<char> {
    "'"@ + name + "' has no return type"@
}

/// The message for a destructuring whose target count differs from the
/// tuple's size.
pub open spec fn arity_text(targets: nat, values: nat) -> Seq<char> {
    "Destructure expects "@ + decimal(targets) + " values, but expression returns "@
        + decimal(values)
}

/// The message for a destructuring of a single value into several targets.
pub open spec fn single_value_text(t: Ty, targets: nat) -> Seq<char> {
    "Expression returns a single value ("@ + ty_text(t) + "), cannot destructure into "@
        + decimal(targets) + " targets"@
}

/// Where an executor argument of the wrong type stands.
pub open spec fn param_context_text(executor: Seq<char>, param: Seq<char>) -> Seq<char> {
    "executor "@ + executor + " parameter "@ + param
}

/// Whether some named argument has the given name.
pub open spec fn named_arg_given(args: Seq<NamedArg>, name: Seq<char>) -> bool {
    exists|i: int| 0 <= i < args.len() && (#[trigger] args[i]).name@ == name
}

/// Whether some keyed argument has the given name.
pub open spec fn keyed_arg_given(args: Seq<(String, DataExpr)>, name: Seq<char>) -> bool {
    exists|i: int| 0 <= i < args.len() && (#[trigger] args[i]).0@ == name
}

/// The first required parameter that no named argument gives.
pub open spec fn missing_named(params: Seq<ParamSpec>, args: Seq<NamedArg>) -> Option<ParamSpec>
    decreases params.len(),
{
    if params.len() == 0 {
        None
    } else if params[0].required && !named_arg_given(args, params[0].name@) {
        Some(params[0])
    } else {
        missing_named(params.drop_first(), args)
    }
}

/// The first required parameter that no keyed argument gives.
pub open spec fn missing_keyed(params: Seq<ParamSpec>, args: Seq<(String, DataExpr)>) -> Option<ParamSpec>
    decreases params.len(),
{
    if params.len() == 0 {
        None
    } else if params[0].required && !keyed_arg_given(args, params[0].name@) {
        Some(params[0])
    } else {
        missing_keyed(params.drop_first(), args)
    }
}

/// The first parameter with the given name.
pub open spec fn find_param(params: Seq<ParamSpec>, name: Seq<char>) -> Option<ParamSpec>
    decreases params.len(),
{
    if params.len() == 0 {
        None
    } else if params[0].name@ == name {
        Some(params[0])
    } else {
        find_param(params.drop_first(), name)
    }
}

/// The outcome of a context-flow step: its result, and the contexts as
/// the step leaves them (after an error, as they stood when it was found).
pub type Flow = (Result<(), ErrorView>, ContextSet);

/// Applies a symbol's context interactions in order: producing needs the
/// context absent and adds it; needing and consuming need it present, and
/// consuming removes it. An error keeps the effects of the interactions
/// before it.
pub open spec fn apply_contexts(ixs: Seq<ContextInteraction>, symbol: Seq<char>, st: ContextSet) -> Flow
    decreases ixs.len(),
{
    if ixs.len() == 0 {
        (Ok(()), st)
    } else {
        let p = ixs[0].protocol@;
        match ixs[0].op {
            ContextOp::Produce => if st.contains(p) {
                (Err(ErrorView::ContextAlreadyProduced { protocol: p, symbol }), st)
            } else {
                apply_contexts(ixs.drop_first(), symbol, st.insert(p))
            },
            ContextOp::Need => if st.contains(p) {
                apply_contexts(ixs.drop_first(), symbol, st)
            } else {
                (Err(ErrorView::ContextNotAvailable { protocol: p, symbol, op: op_text(ContextOp::Need) }), st)
            },
            ContextOp::Consume => if st.contains(p) {
                apply_contexts(ixs.drop_first(), symbol, st.remove(p))
            } else {
                (Err(ErrorView::ContextNotAvailable { protocol: p, symbol, op: op_text(ContextOp::Consume) }), st)
            },
        }
    }
}

/// The first context that a symbol reads or consumes and that is not
/// available, as an error.
pub open spec fn needed_contexts(ixs: Seq<ContextInteraction>, symbol: Seq<char>, st: ContextSet) -> Result<(), ErrorView>
    decreases ixs.len(),
{
    if ixs.len() == 0 {
        Ok(())
    } else if (ixs[0].op == ContextOp::Need || ixs[0].op == ContextOp::Consume) && !st.contains(ixs[0].protocol@) {
        Err(ErrorView::ContextNotAvailable { protocol: ixs[0].protocol@, symbol, op: op_text(ixs[0].op) })
    } else {
        needed_contexts(ixs.drop_first(), symbol, st)
    }
}

/// Whether every keyed argument that names a parameter names one that
/// accepts at least one type (a mismatched argument is reported against the
/// parameter's first allowed type).
pub open spec fn keyed_params_typed(params: Seq<ParamSpec>, args: Seq<(String, DataExpr)>) -> bool {
    forall|i: int| 0 <= i < args.len() ==> match #[trigger] find_param(params, args[i].0@) {
        Some(p) => p.allowed_types@.len() > 0,
        None => true,
    }
}

/// Whether the arguments of an executor call only name parameters that
/// accept some type, where the executor is registered.
pub open spec fn call_params_typed(symbols: SymbolMap, call: ExecutorCall) -> bool {
    let key = (call.executor.name@, SymbolCategory::Executor);
    symbols.contains_key(key) ==> keyed_params_typed(symbols[key].params@, call.args@)
}

/// `call_params_typed` of every executor call within an executor item.
pub open spec fn item_params_typed(symbols: SymbolMap, it: ExecutorItem) -> bool
    decreases it,
{
    match it {
        ExecutorItem::Executor(call) => call_params_typed(symbols, call),
        ExecutorItem::CondExec { condition, executors } => cond_params_typed(symbols, condition)
            && items_params_typed(symbols, executors@),
        _ => true,
    }
}

/// `call_params_typed` of every executor call within executor items.
pub open spec fn items_params_typed(symbols: SymbolMap, items: Seq<ExecutorItem>) -> bool
    decreases items,
{
    items.len() == 0 || (item_params_typed(symbols, items[0]) && items_params_typed(symbols, items.drop_first()))
}

/// `call_params_typed` of every executor call within a condition.
pub open spec fn cond_params_typed(symbols: SymbolMap, c: Condition) -> bool
    decreases c,
{
    match c {
        Condition::Combinator { name: _, conditions } => conds_params_typed(symbols, conditions@),
        Condition::Sequence { items } => items_params_typed(symbols, items@),
        Condition::LetBound { targets: _, inner } => cond_params_typed(symbols, *inner),
        _ => true,
    }
}

/// `call_params_typed` of every executor call within conditions.
pub open spec fn conds_params_typed(symbols: SymbolMap, cs: Seq<Condition>) -> bool
    decreases cs,
{
    cs.len() == 0 || (cond_params_typed(symbols, cs[0]) && conds_params_typed(symbols, cs.drop_first()))
}

/// `call_params_typed` of every executor call within a statement.
pub open spec fn stmt_params_typed(symbols: SymbolMap, s: Statement) -> bool {
    match s {
        Statement::Spawn { items } => items_params_typed(symbols, items@),
        Statement::ConditionExec { condition, executors } => cond_params_typed(symbols, condition)
            && items_params_typed(symbols, executors@),
        _ => true,
    }
}

/// `call_params_typed` of every executor call within statements.
pub open spec fn stmts_params_typed(symbols: SymbolMap, s: Seq<Statement>) -> bool
    decreases s.len(),
{
    s.len() == 0 || (stmt_params_typed(symbols, s[0]) && stmts_params_typed(symbols, s.drop_first()))
}

/// `call_params_typed` of every executor call within a monitor block: the
/// checker reads the first allowed type of a parameter that an argument
/// names, so those parameters must have one.
pub open spec fn monitor_params_typed(symbols: SymbolMap, m: MonitorBlock) -> bool {
    &&& stmts_params_typed(symbols, m.on_trigger.buy@)
    &&& stmts_params_typed(symbols, m.on_trigger.buy_else@)
    &&& stmts_params_typed(symbols, m.on_trigger.sell@)
    &&& items_params_typed(symbols, m.on_trigger.sell_finally@)
}

impl Scope {
    /// The symbol registered under a name and category.
    pub open spec fn lookup(self, name: Seq<char>, cat: SymbolCategory) -> Option<SymbolMetadata> {
        if self.symbols.contains_key((name, cat)) {
            Some(self.symbols[(name, cat)])
        } else {
            None
        }
    }

    /// The symbol that a call names: an executor, else a condition, else a
    /// data item.
    pub open spec fn call_target(self, name: Seq<char>) -> Option<SymbolMetadata> {
        match self.lookup(name, SymbolCategory::Executor) {
            Some(m) => Some(m),
            None => match self.lookup(name, SymbolCategory::Condition) {
                Some(m) => Some(m),
                None => self.lookup(name, SymbolCategory::DataItem),
            },
        }
    }

    // ── Typing ───────────────────────────────────────────────────────────────

    /// The type of an expression, or the first error found in it.
    pub open spec fn infer(self, e: DataExpr) -> Result<Ty, ErrorView>
        decreases e,
    {
        match e {
            DataExpr::Var(name) => if self.vars.contains_key(name@) {
                Ok(self.vars[name@])
            } else {
                match self.lookup(name@, SymbolCategory::DataItem) {
                    Some(m) => match m.returns {
                        Some(t) => Ok(t@),
                        None => Err(ErrorView::Custom(no_return_item_text(name@))),
                    },
                    None => Err(ErrorView::UndeclaredVariable { name: name@ }),
                }
            },
            DataExpr::Literal(v) => Ok(lit_ty(v)),
            DataExpr::Symbol(sym) => match self.lookup(sym.name@, SymbolCategory::DataItem) {
                Some(m) => match m.returns {
                    Some(t) => Ok(t@),
                    None => Err(ErrorView::Custom(no_return_item_text(sym.name@))),
                },
                None => Err(ErrorView::UndefinedSymbol { name: sym.name@, category: SymbolCategory::DataItem }),
            },
            DataExpr::BinOp { left, op, right } => match self.infer(*left) {
                Err(err) => Err(err),
                Ok(lt) => match self.infer(*right) {
                    Err(err) => Err(err),
                    Ok(rt) => match spec_binary_op(lt, type_op(op), rt) {
                        Some(t) => Ok(t),
                        None => Err(ErrorView::InvalidBinaryOp { left: lt, op: binop_text(op), right: rt }),
                    },
                },
            },
            DataExpr::Call(call) => match self.call_target(call.name.name@) {
                Some(m) => match m.returns {
                    Some(t) => Ok(t@),
                    None => Err(ErrorView::Custom(no_return_call_text(call.name.name@))),
                },
                None => Err(ErrorView::UndefinedSymbol { name: call.name.name@, category: SymbolCategory::Executor }),
            },
            DataExpr::Tuple(items) => match self.infer_all(items@) {
                Ok(ts) => Ok(Ty::Tuple(ts)),
                Err(err) => Err(err),
            },
        }
    }

    /// The types of a sequence of expressions, or the first error.
    pub open spec fn infer_all(self, es: Seq<DataExpr>) -> Result<Seq<Ty>, ErrorView>
        decreases es,
    {
        if es.len() == 0 {
            Ok(Seq::empty())
        } else {
            match self.infer(es[0]) {
                Err(err) => Err(err),
                Ok(t) => match self.infer_all(es.drop_first()) {
                    Err(err) => Err(err),
                    Ok(ts) => Ok(seq![t] + ts),
                },
            }
        }
    }

    /// The first error in the arguments' expressions.
    pub open spec fn infer_named_args(self, args: Seq<NamedArg>) -> Result<(), ErrorView>
        decreases args.len(),
    {
        if args.len() == 0 {
            Ok(())
        } else {
            match self.infer(args[0].value) {
                Err(err) => Err(err),
                Ok(_) => self.infer_named_args(args.drop_first()),
            }
        }
    }

    // ── Checking ─────────────────────────────────────────────────────────────

    /// One destructuring target against the type it receives (`None`, the
    /// placeholder `_`, takes anything).
    pub open spec fn target_check(self, target: Option<String>, t: Ty) -> Result<(), ErrorView> {
        match target {
            None => Ok(()),
            Some(n) => if !self.vars.contains_key(n@) {
                Err(ErrorView::UndeclaredVariable { name: n@ })
            } else if spec_is_compatible(self.vars[n@], t) {
                Ok(())
            } else {
                Err(ErrorView::VariableTypeMismatch { name: n@, expected: self.vars[n@], actual: t })
            },
        }
    }

    /// Targets against the tuple's element types, pairwise in order.
    pub open spec fn zip_targets(self, targets: Seq<Option<String>>, ts: Seq<Ty>) -> Result<(), ErrorView>
        decreases targets.len(),
    {
        if targets.len() == 0 || ts.len() == 0 {
            Ok(())
        } else {
            match self.target_check(targets[0], ts[0]) {
                Err(err) => Err(err),
                Ok(_) => self.zip_targets(targets.drop_first(), ts.drop_first()),
            }
        }
    }

    /// The first named target that is not a declared variable.
    pub open spec fn declared_targets(self, targets: Seq<Option<String>>) -> Result<(), ErrorView>
        decreases targets.len(),
    {
        if targets.len() == 0 {
            Ok(())
        } else {
            match targets[0] {
                Some(n) => if self.vars.contains_key(n@) {
                    self.declared_targets(targets.drop_first())
                } else {
                    Err(ErrorView::UndeclaredVariable { name: n@ })
                },
                None => self.declared_targets(targets.drop_first()),
            }
        }
    }

    /// A destructuring `let (targets) = value`: a tuple needs as many targets
    /// as elements, each compatible; a value of type `Any` needs the targets
    /// declared; any other value binds at most one target.
    pub open spec fn destructure(self, targets: Seq<Option<String>>, value: DataExpr) -> Result<(), ErrorView> {
        match self.infer(value) {
            Err(err) => Err(err),
            Ok(Ty::Tuple(ts)) => if targets.len() != ts.len() {
                Err(ErrorView::Custom(arity_text(targets.len(), ts.len())))
            } else {
                self.zip_targets(targets, ts)
            },
            Ok(Ty::Any) => self.declared_targets(targets),
            Ok(t) => if targets.len() > 1 {
                Err(ErrorView::Custom(single_value_text(t, targets.len())))
            } else if targets.len() == 1 {
                self.target_check(targets[0], t)
            } else {
                Ok(())
            },
        }
    }

    /// An assignment `let var = value` to a declared variable.
    pub open spec fn assign(self, var: Seq<char>, value: DataExpr) -> Result<(), ErrorView> {
        if !self.vars.contains_key(var) {
            Err(ErrorView::UndeclaredVariable { name: var })
        } else {
            match self.infer(value) {
                Err(err) => Err(err),
                Ok(t) => if spec_is_compatible(self.vars[var], t) {
                    Ok(())
                } else {
                    Err(ErrorView::VariableTypeMismatch { name: var, expected: self.vars[var], actual: t })
                },
            }
        }
    }

    /// A call of a symbol of the given category: the symbol is registered,
    /// every required parameter is given, and every argument is well typed.
    pub open spec fn call_check(self, call: CallExpr, cat: SymbolCategory) -> Result<(), ErrorView> {
        match self.lookup(call.name.name@, cat) {
            None => Err(ErrorView::UndefinedSymbol { name: call.name.name@, category: cat }),
            Some(m) => match missing_named(m.params@, call.args@) {
                Some(p) => Err(ErrorView::MissingRequiredParam { executor: call.name.name@, param: p.name@ }),
                None => self.infer_named_args(call.args@),
            },
        }
    }

    /// The executor's arguments in order: each well typed, and accepted by
    /// the first parameter of its name where there is one.
    pub open spec fn keyed_args_check(self, params: Seq<ParamSpec>, executor: Seq<char>, args: Seq<(String, DataExpr)>) -> Result<(), ErrorView>
        decreases args.len(),
    {
        if args.len() == 0 {
            Ok(())
        } else {
            match self.infer(args[0].1) {
                Err(err) => Err(err),
                Ok(t) => match find_param(params, args[0].0@) {
                    Some(p) => if spec_accepts(p.allowed_types@, t) {
                        self.keyed_args_check(params, executor, args.drop_first())
                    } else {
                        Err(ErrorView::TypeMismatch {
                            expected: p.allowed_types@[0]@,
                            actual: t,
                            context: param_context_text(executor, args[0].0@),
                        })
                    },
                    None => self.keyed_args_check(params, executor, args.drop_first()),
                },
            }
        }
    }

    /// An executor call in an executor list.
    pub open spec fn executor_call_check(self, call: ExecutorCall) -> Result<(), ErrorView> {
        let name = call.executor.name@;
        match self.lookup(name, SymbolCategory::Executor) {
            None => Err(ErrorView::UndefinedSymbol { name, category: SymbolCategory::Executor }),
            Some(m) => match missing_keyed(m.params@, call.args@) {
                Some(p) => Err(ErrorView::MissingRequiredParam { executor: name, param: p.name@ }),
                None => self.keyed_args_check(m.params@, name, call.args@),
            },
        }
    }

    /// One item of an executor list.
    pub open spec fn item_check(self, it: ExecutorItem) -> Result<(), ErrorView>
        decreases it,
    {
        match it {
            ExecutorItem::Executor(call) => self.executor_call_check(call),
            ExecutorItem::LetAssign { var_name, value } => self.assign(var_name@, value),
            ExecutorItem::LetDestructure { targets, value } => self.destructure(targets@, value),
            ExecutorItem::CondExec { condition, executors } => match self.cond_check(condition) {
                Err(err) => Err(err),
                Ok(_) => self.items_check(executors@),
            },
        }
    }

    /// An executor list, item by item.
    pub open spec fn items_check(self, items: Seq<ExecutorItem>) -> Result<(), ErrorView>
        decreases items,
    {
        if items.len() == 0 {
            Ok(())
        } else {
            match self.item_check(items[0]) {
                Err(err) => Err(err),
                Ok(_) => self.items_check(items.drop_first()),
            }
        }
    }

    /// A condition.
    pub open spec fn cond_check(self, c: Condition) -> Result<(), ErrorView>
        decreases c,
    {
        match c {
            Condition::Compare { left, op: _, right } => match self.infer(left) {
                Err(err) => Err(err),
                Ok(lt) => match self.infer(right) {
                    Err(err) => Err(err),
                    Ok(rt) => if spec_compare_op(lt, rt) {
                        Ok(())
                    } else {
                        Err(ErrorView::InvalidCompare { left: lt, right: rt })
                    },
                },
            },
            Condition::Call(call) => self.call_check(call, SymbolCategory::Condition),
            Condition::LetBound { targets, inner } => match self.cond_check(*inner) {
                Err(err) => Err(err),
                Ok(_) => self.declared_targets(targets@),
            },
            Condition::Combinator { name, conditions } => if self.lookup(name@, SymbolCategory::Condition) is None {
                Err(ErrorView::UndefinedSymbol { name: name@, category: SymbolCategory::Condition })
            } else {
                self.conds_check(conditions@)
            },
            Condition::Sequence { items } => self.items_check(items@),
            Condition::Default => Ok(()),
        }
    }

    /// Conditions, one after the other.
    pub open spec fn conds_check(self, cs: Seq<Condition>) -> Result<(), ErrorView>
        decreases cs,
    {
        if cs.len() == 0 {
            Ok(())
        } else {
            match self.cond_check(cs[0]) {
                Err(err) => Err(err),
                Ok(_) => self.conds_check(cs.drop_first()),
            }
        }
    }

    /// A statement.
    pub open spec fn stmt_check(self, s: Statement) -> Result<(), ErrorView> {
        match s {
            Statement::LetAssign { var_name, value } => self.assign(var_name@, value),
            Statement::Executor { call } => if self.lookup(call.name.name@, SymbolCategory::Executor) is Some {
                self.call_check(call, SymbolCategory::Executor)
            } else if self.lookup(call.name.name@, SymbolCategory::DataItem) is Some {
                Ok(())
            } else {
                Err(ErrorView::UndefinedSymbol { name: call.name.name@, category: SymbolCategory::Executor })
            },
            Statement::Spawn { items } => self.items_check(items@),
            Statement::ConditionExec { condition, executors } => match self.cond_check(condition) {
                Err(err) => Err(err),
                Ok(_) => self.items_check(executors@),
            },
            Statement::LetDestructure { targets, value } => self.destructure(targets@, value),
        }
    }

    /// Statements, one after the other.
    pub open spec fn stmts_check(self, s: Seq<Statement>) -> Result<(), ErrorView>
        decreases s.len(),
    {
        if s.len() == 0 {
            Ok(())
        } else {
            match self.stmt_check(s[0]) {
                Err(err) => Err(err),
                Ok(_) => self.stmts_check(s.drop_first()),
            }
        }
    }

    /// The monitor block: the monitor call, the buy statements, the
    /// buy-else statements, the sell statements, then the finally list.
    pub open spec fn monitor_check(self, m: MonitorBlock) -> Result<(), ErrorView> {
        match self.call_check(m.monitor_call, SymbolCategory::Monitor) {
            Err(err) => Err(err),
            Ok(_) => match self.stmts_check(m.on_trigger.buy@) {
                Err(err) => Err(err),
                Ok(_) => match self.stmts_check(m.on_trigger.buy_else@) {
                    Err(err) => Err(err),
                    Ok(_) => match self.stmts_check(m.on_trigger.sell@) {
                        Err(err) => Err(err),
                        Ok(_) => self.items_check(m.on_trigger.sell_finally@),
                    },
                },
            },
        }
    }

    // ── Implicit contexts ────────────────────────────────────────────────────

    /// A symbol of the given category acts on the contexts (a symbol that
    /// is not registered does nothing).
    pub open spec fn apply_symbol(self, name: Seq<char>, cat: SymbolCategory, st: ContextSet) -> Flow {
        match self.lookup(name, cat) {
            None => (Ok(()), st),
            Some(m) => apply_contexts(m.contexts@, name, st),
        }
    }

    /// The category under which a call in an expression acts: executor, else
    /// condition, else data item.
    pub open spec fn call_category(self, name: Seq<char>) -> SymbolCategory {
        if self.lookup(name, SymbolCategory::Executor) is Some {
            SymbolCategory::Executor
        } else if self.lookup(name, SymbolCategory::Condition) is Some {
            SymbolCategory::Condition
        } else {
            SymbolCategory::DataItem
        }
    }

    /// An expression evaluated on the contexts (reading a data item by name
    /// changes nothing, even where it consumes).
    pub open spec fn expr_ctx(self, e: DataExpr, st: ContextSet) -> Flow
        decreases e,
    {
        match e {
            DataExpr::Var(name) => if self.vars.contains_key(name@) {
                (Ok(()), st)
            } else {
                match self.lookup(name@, SymbolCategory::DataItem) {
                    None => (Ok(()), st),
                    Some(m) => (needed_contexts(m.contexts@, name@, st), st),
                }
            },
            DataExpr::Symbol(sym) => self.apply_symbol(sym.name@, SymbolCategory::DataItem, st),
            DataExpr::BinOp { left, op: _, right } => {
                let f = self.expr_ctx(*left, st);
                if f.0 is Err {
                    f
                } else {
                    self.expr_ctx(*right, f.1)
                }
            },
            DataExpr::Literal(_) => (Ok(()), st),
            DataExpr::Call(call) => {
                let f = self.apply_symbol(call.name.name@, self.call_category(call.name.name@), st);
                if f.0 is Err {
                    f
                } else {
                    self.args_ctx(call.args@, f.1)
                }
            },
            DataExpr::Tuple(items) => self.exprs_ctx(items@, st),
        }
    }

    /// Expressions evaluated in order, up to the first error.
    pub open spec fn exprs_ctx(self, es: Seq<DataExpr>, st: ContextSet) -> Flow
        decreases es,
    {
        if es.len() == 0 {
            (Ok(()), st)
        } else {
            let f = self.expr_ctx(es[0], st);
            if f.0 is Err {
                f
            } else {
                self.exprs_ctx(es.drop_first(), f.1)
            }
        }
    }

    /// Named arguments evaluated in order, up to the first error.
    pub open spec fn args_ctx(self, args: Seq<NamedArg>, st: ContextSet) -> Flow
        decreases args,
    {
        if args.len() == 0 {
            (Ok(()), st)
        } else {
            let f = self.expr_ctx(args[0].value, st);
            if f.0 is Err {
                f
            } else {
                self.args_ctx(args.drop_first(), f.1)
            }
        }
    }

    /// Keyed arguments evaluated in order, up to the first error.
    pub open spec fn keyed_ctx(self, args: Seq<(String, DataExpr)>, st: ContextSet) -> Flow
        decreases args.len(),
    {
        if args.len() == 0 {
            (Ok(()), st)
        } else {
            let f = self.expr_ctx(args[0].1, st);
            if f.0 is Err {
                f
            } else {
                self.keyed_ctx(args.drop_first(), f.1)
            }
        }
    }

    /// An executor-list item run on the contexts (the list of a conditional
    /// item runs on a copy: its changes, and those before its error, do not
    /// flow back).
    pub open spec fn item_ctx(self, it: ExecutorItem, st: ContextSet) -> Flow
        decreases it,
    {
        match it {
            ExecutorItem::Executor(call) => {
                let f = self.apply_symbol(call.executor.name@, SymbolCategory::Executor, st);
                if f.0 is Err {
                    f
                } else {
                    self.keyed_ctx(call.args@, f.1)
                }
            },
            ExecutorItem::LetAssign { var_name: _, value } => self.expr_ctx(value, st),
            ExecutorItem::LetDestructure { targets: _, value } => self.expr_ctx(value, st),
            ExecutorItem::CondExec { condition, executors } => {
                let f = self.cond_ctx(condition, st);
                if f.0 is Err {
                    f
                } else {
                    (self.items_ctx(executors@, f.1).0, f.1)
                }
            },
        }
    }

    /// An executor list run in order, up to the first error.
    pub open spec fn items_ctx(self, items: Seq<ExecutorItem>, st: ContextSet) -> Flow
        decreases items,
    {
        if items.len() == 0 {
            (Ok(()), st)
        } else {
            let f = self.item_ctx(items[0], st);
            if f.0 is Err {
                f
            } else {
                self.items_ctx(items.drop_first(), f.1)
            }
        }
    }

    /// A condition evaluated on the contexts (the sub-conditions of a
    /// combinator each start from the same contexts and change nothing).
    pub open spec fn cond_ctx(self, c: Condition, st: ContextSet) -> Flow
        decreases c,
    {
        match c {
            Condition::Compare { left, op: _, right } => {
                let f = self.expr_ctx(left, st);
                if f.0 is Err {
                    f
                } else {
                    self.expr_ctx(right, f.1)
                }
            },
            Condition::Call(call) => {
                let f = self.apply_symbol(call.name.name@, SymbolCategory::Condition, st);
                if f.0 is Err {
                    f
                } else {
                    self.args_ctx(call.args@, f.1)
                }
            },
            Condition::Combinator { name: _, conditions } => (self.branches_ctx(conditions@, st), st),
            Condition::Sequence { items } => self.items_ctx(items@, st),
            Condition::LetBound { targets: _, inner } => self.cond_ctx(*inner, st),
            Condition::Default => (Ok(()), st),
        }
    }

    /// The first error among conditions that each start from `st`.
    pub open spec fn branches_ctx(self, cs: Seq<Condition>, st: ContextSet) -> Result<(), ErrorView>
        decreases cs,
    {
        if cs.len() == 0 {
            Ok(())
        } else {
            match self.cond_ctx(cs[0], st).0 {
                Err(err) => Err(err),
                Ok(_) => self.branches_ctx(cs.drop_first(), st),
            }
        }
    }

    /// A statement run on the contexts (a conditional list and a spawned list
    /// run on a copy: their changes, and those before their error, do not
    /// flow back).
    pub open spec fn stmt_ctx(self, s: Statement, st: ContextSet) -> Flow {
        match s {
            Statement::LetAssign { var_name: _, value } => self.expr_ctx(value, st),
            Statement::Executor { call } => {
                let cat = if self.lookup(call.name.name@, SymbolCategory::Executor) is Some {
                    SymbolCategory::Executor
                } else {
                    SymbolCategory::DataItem
                };
                let f = self.apply_symbol(call.name.name@, cat, st);
                if f.0 is Err {
                    f
                } else {
                    self.args_ctx(call.args@, f.1)
                }
            },
            Statement::ConditionExec { condition, executors } => {
                let f = self.cond_ctx(condition, st);
                if f.0 is Err {
                    f
                } else {
                    (self.items_ctx(executors@, f.1).0, f.1)
                }
            },
            Statement::LetDestructure { targets: _, value } => self.expr_ctx(value, st),
            Statement::Spawn { items } => (self.items_ctx(items@, st).0, st),
        }
    }

    /// Statements run in order, up to the first error.
    pub open spec fn stmts_ctx(self, s: Seq<Statement>, st: ContextSet) -> Flow
        decreases s.len(),
    {
        if s.len() == 0 {
            (Ok(()), st)
        } else {
            let f = self.stmt_ctx(s[0], st);
            if f.0 is Err {
                f
            } else {
                self.stmts_ctx(s.drop_first(), f.1)
            }
        }
    }

    /// The flow of implicit contexts through a monitor block, from no
    /// context: the monitor, then the buy statements; from there the
    /// buy-else statements on a copy (they run instead of the sell phase)
    /// and the sell statements; then the finally list.
    pub open spec fn context_flow(self, m: MonitorBlock) -> Result<(), ErrorView> {
        let f1 = self.apply_symbol(m.monitor_call.name.name@, SymbolCategory::Monitor, Set::empty());
        if f1.0 is Err {
            f1.0
        } else {
            let f2 = self.stmts_ctx(m.on_trigger.buy@, f1.1);
            if f2.0 is Err {
                f2.0
            } else {
                let alt = self.stmts_ctx(m.on_trigger.buy_else@, f2.1);
                if alt.0 is Err {
                    alt.0
                } else {
                    let f3 = self.stmts_ctx(m.on_trigger.sell@, f2.1);
                    if f3.0 is Err {
                        f3.0
                    } else {
                        self.items_ctx(m.on_trigger.sell_finally@, f3.1).0
                    }
                }
            }
        }
    }

    /// A whole strategy, once its variables are declared: the monitor block,
    /// then the flow of implicit contexts.
    pub open spec fn strategy_check(self, s: Strategy) -> Result<(), ErrorView> {
        match self.monitor_check(s.monitor) {
            Err(err) => Err(err),
            Ok(_) => self.context_flow(s.monitor),
        }
    }
}

/// The type operator that an expression operator stands for.
pub open spec fn type_op(op: BinOp) -> crate::types::BinOp {
    match op {
        BinOp::Add => crate::types::BinOp::Add,
        BinOp::Sub => crate::types::BinOp::Sub,
        BinOp::Mul => crate::types::BinOp::Mul,
        BinOp::Div => crate::types::BinOp::Div,
        BinOp::Or => crate::types::BinOp::Or,
    }
}

// ── Variable table ───────────────────────────────────────────────────────────

/// The declared variables' types, by name.
pub struct VarTable {
    entries: Vec<(String, TypeSpec)>,
}

/// The map from name to type that a sequence of entries stands for (a later
/// entry overrides an earlier one with the same name).
pub open spec fn var_map(s: Seq<(String, TypeSpec)>) -> Map<Seq<char>, Ty>
    decreases s.len(),
{
    if s.len() == 0 {
        Map::empty()
    } else {
        var_map(s.drop_last()).insert(s.last().0@, s.last().1@)
    }
}

/// Whether entry `i` is the last one with its name.
pub open spec fn last_with_name(s: Seq<(String, TypeSpec)>, i: int) -> bool {
    &&& 0 <= i < s.len()
    &&& forall|j: int| i < j < s.len() ==> (#[trigger] s[j]).0@ != s[i].0@
}

proof fn lemma_var_map(s: Seq<(String, TypeSpec)>)
    ensures
        forall|k: Seq<char>| #[trigger] var_map(s).contains_key(k) <==> exists|i: int| 0 <= i < s.len() && s[i].0@ == k,
        forall|i: int| #[trigger] last_with_name(s, i) ==> var_map(s)[s[i].0@] == s[i].1@,
    decreases s.len(),
{
    if s.len() > 0 {
        let p = s.drop_last();
        lemma_var_map(p);
        assert forall|k: Seq<char>| #[trigger] var_map(s).contains_key(k) <==> exists|i: int| 0 <= i < s.len() && s[i].0@ == k by {
            if var_map(s).contains_key(k) && k != s.last().0@ {
                assert(var_map(p).contains_key(k));
                let i = choose|i: int| 0 <= i < p.len() && p[i].0@ == k;
                assert(s[i] == p[i]);
            }
            if exists|i: int| 0 <= i < s.len() && s[i].0@ == k {
                let i = choose|i: int| 0 <= i < s.len() && s[i].0@ == k;
                if i < s.len() - 1 {
                    assert(s[i] == p[i]);
                    assert(var_map(p).contains_key(k));
                }
            }
        }
        assert forall|i: int| #[trigger] last_with_name(s, i) implies var_map(s)[s[i].0@] == s[i].1@ by {
            if i < s.len() - 1 {
                assert(s[i] == p[i]);
                assert(s[s.len() - 1].0@ != s[i].0@);
                assert(last_with_name(p, i)) by {
                    assert forall|j: int| i < j < p.len() implies (#[trigger] p[j]).0@ != p[i].0@ by {
                        assert(p[j] == s[j]);
                    }
                }
            }
        }
    }
}

proof fn lemma_var_map_update(s: Seq<(String, TypeSpec)>, i: int, e: (String, TypeSpec))
    requires
        last_with_name(s, i),
        e.0@ == s[i].0@,
    ensures
        var_map(s.update(i, e)) == var_map(s).insert(e.0@, e.1@),
{
    let t = s.update(i, e);
    lemma_var_map(s);
    lemma_var_map(t);
    assert(last_with_name(t, i)) by {
        assert forall|j: int| i < j < t.len() implies (#[trigger] t[j]).0@ != t[i].0@ by {
            assert(t[j] == s[j]);
        }
    }
    assert forall|k: Seq<char>| #[trigger] var_map(t).contains_key(k) <==> var_map(s).insert(e.0@, e.1@).contains_key(k) by {
        if exists|a: int| 0 <= a < t.len() && t[a].0@ == k {
            let a = choose|a: int| 0 <= a < t.len() && t[a].0@ == k;
            assert(s[a].0@ == k);
        }
        if exists|a: int| 0 <= a < s.len() && s[a].0@ == k {
            let a = choose|a: int| 0 <= a < s.len() && s[a].0@ == k;
            assert(t[a].0@ == k);
        }
    }
    assert forall|k: Seq<char>| #[trigger] var_map(t).contains_key(k) implies var_map(t)[k] == var_map(s).insert(e.0@, e.1@)[k] by {
        if k != e.0@ {
            let a0 = choose|a: int| 0 <= a < t.len() && t[a].0@ == k;
            let a = last_index(t, k, a0);
            assert(t[a] == s[a]);
            assert(last_with_name(s, a)) by {
                assert forall|j: int| a < j < s.len() implies (#[trigger] s[j]).0@ != s[a].0@ by {
                    if j != i {
                        assert(s[j] == t[j]);
                    }
                }
            }
        }
    }
    assert(var_map(t) =~= var_map(s).insert(e.0@, e.1@));
}

/// The last entry with the name of entry `a`.
proof fn last_index(s: Seq<(String, TypeSpec)>, k: Seq<char>, a: int) -> (r: int)
    requires
        0 <= a < s.len(),
        s[a].0@ == k,
    ensures
        last_with_name(s, r),
        s[r].0@ == k,
    decreases s.len() - a,
{
    if exists|j: int| a < j < s.len() && s[j].0@ == k {
        let j = choose|j: int| a < j < s.len() && s[j].0@ == k;
        last_index(s, k, j)
    } else {
        a
    }
}

impl View for VarTable {
    type V = Map<Seq<char>, Ty>;

    closed spec fn view(&self) -> Map<Seq<char>, Ty> {
        var_map(self.entries@)
    }
}

impl VarTable {
    /// An empty table.
    pub fn new() -> (r: Self)
        ensures
            r@ == Map::<Seq<char>, Ty>::empty(),
    {
        VarTable { entries: Vec::new() }
    }

    fn last_index_of(&self, name: &str) -> (r: Option<usize>)
        ensures
            match r {
                Some(i) => last_with_name(self.entries@, i as int) && self.entries@[i as int].0@ == name@,
                None => forall|i: int| 0 <= i < self.entries@.len() ==> (#[trigger] self.entries@[i]).0@ != name@,
            },
    {
        let mut i: usize = self.entries.len();
        while i > 0
            invariant
                i <= self.entries@.len(),
                forall|j: int| i <= j < self.entries@.len() ==> (#[trigger] self.entries@[j]).0@ != name@,
            decreases i,
        {
            i -= 1;
            if str_eq(self.entries[i].0.as_str(), name) {
                return Some(i);
            }
        }
        None
    }

    /// The type of the named variable, if declared.
    pub fn get(&self, name: &str) -> (r: Option<&TypeSpec>)
        ensures
            match r {
                Some(t) => self@.contains_key(name@) && t@ == self@[name@],
                None => !self@.contains_key(name@),
            },
    {
        proof {
            lemma_var_map(self.entries@);
        }
        match self.last_index_of(name) {
            Some(i) => Some(&self.entries[i].1),
            None => None,
        }
    }

    /// Whether the named variable is declared.
    pub fn contains_key(&self, name: &str) -> (r: bool)
        ensures
            r == self@.contains_key(name@),
    {
        proof {
            lemma_var_map(self.entries@);
        }
        self.last_index_of(name).is_some()
    }

    /// Declares (or redeclares) a variable.
    pub fn insert(&mut self, name: String, ty: TypeSpec)
        ensures
            final(self)@ == old(self)@.insert(name@, ty@),
    {
        match self.last_index_of(name.as_str()) {
            Some(i) => {
                proof {
                    lemma_var_map_update(self.entries@, i as int, (name, ty));
                }
                self.entries.set(i, (name, ty));
            },
            None => {
                let ghost before = self.entries@;
                self.entries.push((name, ty));
                assert(self.entries@.drop_last() =~= before);
            },
        }
    }
}

// ── Context tracker ──────────────────────────────────────────────────────────

/// The implicit contexts available at a point of the context-flow analysis.
struct ContextFlowTracker {
    state: Vec<String>,
}

impl View for ContextFlowTracker {
    type V = ContextSet;

    closed spec fn view(&self) -> ContextSet {
        Set::new(|p: Seq<char>| exists|i: int| 0 <= i < self.state@.len() && self.state@[i]@ == p)
    }
}

impl ContextFlowTracker {
    fn new() -> (r: Self)
        ensures
            r@ == Set::<Seq<char>>::empty(),
    {
        let r = ContextFlowTracker { state: Vec::new() };
        assert(r@ =~= Set::<Seq<char>>::empty());
        r
    }

    fn contains(&self, protocol: &str) -> (r: bool)
        ensures
            r == self@.contains(protocol@),
    {
        let mut i: usize = 0;
        while i < self.state.len()
            invariant
                i <= self.state@.len(),
                forall|j: int| 0 <= j < i ==> (#[trigger] self.state@[j])@ != protocol@,
            decreases self.state@.len() - i,
        {
            if str_eq(self.state[i].as_str(), protocol) {
                return true;
            }
            i += 1;
        }
        false
    }

    fn insert(&mut self, protocol: &str)
        ensures
            final(self)@ == old(self)@.insert(protocol@),
    {
        let ghost before = self.state@;
        self.state.push(protocol.to_owned());
        proof {
            assert forall|p: Seq<char>| #[trigger] self@.contains(p) == old(self)@.insert(protocol@).contains(p) by {
                if p != protocol@ && self@.contains(p) {
                    let i = choose|i: int| 0 <= i < self.state@.len() && self.state@[i]@ == p;
                    assert(before[i] == self.state@[i]);
                }
                if old(self)@.contains(p) {
                    let i = choose|i: int| 0 <= i < before.len() && before[i]@ == p;
                    assert(self.state@[i] == before[i]);
                }
                if p == protocol@ {
                    assert(self.state@[before.len() as int]@ == p);
                }
            }
            assert(self@ =~= old(self)@.insert(protocol@));
        }
    }

    fn remove(&mut self, protocol: &str)
        ensures
            final(self)@ == old(self)@.remove(protocol@),
    {
        let ghost before = self.state@;
        let mut kept: Vec<String> = Vec::new();
        let mut i: usize = 0;
        while i < self.state.len()
            invariant
                self.state@ == before,
                i <= before.len(),
                forall|j: int| 0 <= j < kept@.len() ==> (#[trigger] kept@[j])@ != protocol@
                    && exists|a: int| 0 <= a < i && before[a]@ == kept@[j]@,
                forall|a: int| 0 <= a < i && (#[trigger] before[a])@ != protocol@
                    ==> exists|j: int| 0 <= j < kept@.len() && kept@[j]@ == before[a]@,
            decreases before.len() - i,
        {
            if !str_eq(self.state[i].as_str(), protocol) {
                let ghost old_kept = kept@;
                kept.push(self.state[i].clone());
                proof {
                    assert(kept@[old_kept.len() as int]@ == before[i as int]@);
                    assert forall|j: int| 0 <= j < kept@.len() implies (#[trigger] kept@[j])@ != protocol@
                        && exists|a: int| 0 <= a < i + 1 && before[a]@ == kept@[j]@ by {
                        if j < old_kept.len() {
                            assert(kept@[j] == old_kept[j]);
                        } else {
                            assert(before[i as int]@ == kept@[j]@);
                        }
                    }
                    assert forall|a: int| 0 <= a < i + 1 && (#[trigger] before[a])@ != protocol@
                        implies exists|j: int| 0 <= j < kept@.len() && kept@[j]@ == before[a]@ by {
                        if a < i {
                            let j = choose|j: int| 0 <= j < old_kept.len() && old_kept[j]@ == before[a]@;
                            assert(kept@[j] == old_kept[j]);
                        } else {
                            assert(kept@[old_kept.len() as int]@ == before[a]@);
                        }
                    }
                }
            }
            i += 1;
        }
        self.state = kept;
        proof {
            assert forall|p: Seq<char>| #[trigger] self@.contains(p) == old(self)@.remove(protocol@).contains(p) by {
                if self@.contains(p) {
                    let j = choose|j: int| 0 <= j < self.state@.len() && self.state@[j]@ == p;
                    assert(self.state@[j]@ != protocol@);
                    let a = choose|a: int| 0 <= a < before.len() && before[a]@ == self.state@[j]@;
                    assert(old(self)@.contains(p));
                }
                if old(self)@.remove(protocol@).contains(p) {
                    let a = choose|a: int| 0 <= a < before.len() && before[a]@ == p;
                    assert(before[a]@ != protocol@);
                    let j = choose|j: int| 0 <= j < self.state@.len() && self.state@[j]@ == before[a]@;
                }
            }
            assert(self@ =~= old(self)@.remove(protocol@));
        }
    }

    fn branch(&self) -> (r: Self)
        ensures
            r@ == self@,
    {
        let mut copy: Vec<String> = Vec::new();
        let mut i: usize = 0;
        while i < self.state.len()
            invariant
                i <= self.state@.len(),
                copy@.len() == i,
                forall|j: int| 0 <= j < i ==> (#[trigger] copy@[j])@ == self.state@[j]@,
            decreases self.state@.len() - i,
        {
            copy.push(self.state[i].clone());
            i += 1;
        }
        let r = ContextFlowTracker { state: copy };
        proof {
            assert forall|p: Seq<char>| #[trigger] r@.contains(p) == self@.contains(p) by {
                if r@.contains(p) {
                    let j = choose|j: int| 0 <= j < r.state@.len() && r.state@[j]@ == p;
                    assert(self.state@[j]@ == p);
                }
                if self@.contains(p) {
                    let j = choose|j: int| 0 <= j < self.state@.len() && self.state@[j]@ == p;
                    assert(r.state@[j]@ == p);
                }
            }
            assert(r@ =~= self@);
        }
        r
    }
}

// ── The checker ──────────────────────────────────────────────────────────────

/// What a context-flow step returned, with the contexts it left.
pub open spec fn ctx_outcome(r: CheckResult<()>, st: ContextSet) -> Flow {
    (result_view(r), st)
}

fn no_return_item_message(name: &str) -> (r: String)
    ensures
        r@ == no_return_item_text(name@),
{
    let mut out = String::new();
    out.append("DataItem '");
    out.append(name);
    out.append("' has no return type");
    assert(out@ =~= no_return_item_text(name@));
    out
}

fn no_return_call_message(name: &str) -> (r: String)
    ensures
        r@ == no_return_call_text(name@),
{
    let mut out = String::new();
    out.append("'");
    out.append(name);
    out.append("' has no return type");
    assert(out@ =~= no_return_call_text(name@));
    out
}

fn arity_message(targets: usize, values: usize) -> (r: String)
    ensures
        r@ == arity_text(targets as nat, values as nat),
{
    let mut out = String::new();
    out.append("Destructure expects ");
    push_decimal(&mut out, targets);
    out.append(" values, but expression returns ");
    push_decimal(&mut out, values);
    assert(out@ =~= arity_text(targets as nat, values as nat));
    out
}

fn single_value_message(t: &TypeSpec, targets: usize) -> (r: String)
    ensures
        r@ == single_value_text(t@, targets as nat),
{
    let mut out = String::new();
    out.append("Expression returns a single value (");
    t.write_text(&mut out);
    out.append("), cannot destructure into ");
    push_decimal(&mut out, targets);
    out.append(" targets");
    assert(out@ =~= single_value_text(t@, targets as nat));
    out
}

fn param_context_message(executor: &str, param: &str) -> (r: String)
    ensures
        r@ == param_context_text(executor@, param@),
{
    let mut out = String::new();
    out.append("executor ");
    out.append(executor);
    out.append(" parameter ");
    out.append(param);
    assert(out@ =~= param_context_text(executor@, param@));
    out
}

/// The semantic checker of strategies.
pub struct Checker {
    /// The registered symbols it consults.
    pub registry: SymbolRegistry,
    /// The declared variables' types.
    pub var_types: VarTable,
}

impl Checker {
    /// The registered symbols the checker consults: those of its registry.
    pub open spec fn symbols(&self) -> SymbolMap {
        self.registry@
    }

    /// The declared variables' types: those of the public table.
    pub open spec fn vars(&self) -> Map<Seq<char>, Ty> {
        self.var_types@
    }

    /// What the checker sees: its symbols and declared variables.
    pub open spec fn scope(&self) -> Scope {
        Scope { symbols: self.symbols(), vars: self.vars() }
    }

    /// A checker over a registry, with no variables declared.
    pub fn new(registry: SymbolRegistry) -> (r: Self)
        ensures
            r.symbols() == registry@,
            r.vars() == Map::<Seq<char>, Ty>::empty(),
    {
        Checker { registry, var_types: VarTable::new() }
    }

    /// Checks a whole strategy: declares its variables (they stay declared
    /// afterwards), checks the monitor block, then the flow of implicit
    /// contexts through it.
    pub fn check(&mut self, strategy: &Strategy) -> (r: CheckResult<()>)
        requires
            monitor_params_typed(old(self).symbols(), strategy.monitor),
        ensures
            final(self).symbols() == old(self).symbols(),
            final(self).vars() == declare_vars(old(self).vars(), strategy.vars.vars@),
            result_view(r) == final(self).scope().strategy_check(*strategy),
    {
        match self.collect_var_types(&strategy.vars) {
            Err(e) => return Err(e),
            Ok(_) => {},
        }
        match self.check_monitor_block(&strategy.monitor) {
            Err(e) => return Err(e),
            Ok(_) => {},
        }
        match self.check_context_flow(&strategy.monitor) {
            Err(e) => return Err(e),
            Ok(_) => {},
        }
        Ok(())
    }

    /// Whether every executor argument in the monitor block that names a
    /// parameter of its (registered) executor names one that accepts some
    /// type: what `check` requires of a strategy's monitor block.
    pub fn arguments_typed(&self, monitor: &MonitorBlock) -> (r: bool)
        ensures
            r == monitor_params_typed(self.symbols(), *monitor),
    {
        self.stmts_typed(&monitor.on_trigger.buy) && self.stmts_typed(&monitor.on_trigger.buy_else)
            && self.stmts_typed(&monitor.on_trigger.sell) && self.items_typed(&monitor.on_trigger.sell_finally)
    }

    fn call_typed(&self, call: &ExecutorCall) -> (r: bool)
        ensures
            r == call_params_typed(self.symbols(), *call),
    {
        match self.registry.lookup(call.executor.name.as_str(), SymbolCategory::Executor) {
            None => true,
            Some(meta) => {
                let mut j: usize = 0;
                while j < call.args.len()
                    invariant
                        j <= call.args@.len(),
                        self.symbols().contains_key((call.executor.name@, SymbolCategory::Executor)),
                        *meta == self.symbols()[(call.executor.name@, SymbolCategory::Executor)],
                        forall|a: int| 0 <= a < j ==> match #[trigger] find_param(meta.params@, call.args@[a].0@) {
                            Some(p) => p.allowed_types@.len() > 0,
                            None => true,
                        },
                    decreases call.args@.len() - j,
                {
                    if let Some(k) = find_param_index(&meta.params, call.args[j].0.as_str()) {
                        if meta.params[k].allowed_types.len() == 0 {
                            assert(find_param(meta.params@, call.args@[j as int].0@) == Some(meta.params@[k as int]));
                            return false;
                        }
                    }
                    j += 1;
                }
                true
            },
        }
    }

    fn item_typed(&self, item: &ExecutorItem) -> (r: bool)
        ensures
            r == item_params_typed(self.symbols(), *item),
        decreases item,
    {
        match item {
            ExecutorItem::Executor(call) => self.call_typed(call),
            ExecutorItem::CondExec { condition, executors } => self.cond_typed(condition) && self.items_typed(executors),
            _ => true,
        }
    }

    fn items_typed(&self, items: &Vec<ExecutorItem>) -> (r: bool)
        ensures
            r == items_params_typed(self.symbols(), items@),
        decreases items,
    {
        let mut i: usize = 0;
        assert(items@.skip(0) =~= items@);
        while i < items.len()
            invariant
                i <= items@.len(),
                items_params_typed(self.symbols(), items@) == items_params_typed(self.symbols(), items@.skip(i as int)),
            decreases items@.len() - i,
        {
            proof {
                assert(decreases_to!(*items => items[i as int]));
            }
            assert(items@.skip(i as int).drop_first() =~= items@.skip(i + 1));
            assert(items@.skip(i as int)[0] == items@[i as int]);
            if !self.item_typed(&items[i]) {
                return false;
            }
            i += 1;
        }
        true
    }

    fn cond_typed(&self, cond: &Condition) -> (r: bool)
        ensures
            r == cond_params_typed(self.symbols(), *cond),
        decreases cond,
    {
        match cond {
            Condition::Combinator { name, conditions } => {
                let mut i: usize = 0;
                assert(conditions@.skip(0) =~= conditions@);
                while i < conditions.len()
                    invariant
                        i <= conditions@.len(),
                        conds_params_typed(self.symbols(), conditions@)
                            == conds_params_typed(self.symbols(), conditions@.skip(i as int)),
                        decreases_to!(*cond => *conditions),
                        *cond == (Condition::Combinator { name: *name, conditions: *conditions }),
                    decreases conditions@.len() - i,
                {
                    proof {
                        assert(decreases_to!(*conditions => conditions[i as int]));
                    }
                    assert(conditions@.skip(i as int).drop_first() =~= conditions@.skip(i + 1));
                    assert(conditions@.skip(i as int)[0] == conditions@[i as int]);
                    if !self.cond_typed(&conditions[i]) {
                        return false;
                    }
                    i += 1;
                }
                true
            },
            Condition::Sequence { items } => self.items_typed(items),
            Condition::LetBound { targets: _, inner } => self.cond_typed(&**inner),
            _ => true,
        }
    }

    fn stmts_typed(&self, stmts: &Vec<Statement>) -> (r: bool)
        ensures
            r == stmts_params_typed(self.symbols(), stmts@),
    {
        let mut i: usize = 0;
        assert(stmts@.skip(0) =~= stmts@);
        while i < stmts.len()
            invariant
                i <= stmts@.len(),
                stmts_params_typed(self.symbols(), stmts@) == stmts_params_typed(self.symbols(), stmts@.skip(i as int)),
            decreases stmts@.len() - i,
        {
            assert(stmts@.skip(i as int).drop_first() =~= stmts@.skip(i + 1));
            assert(stmts@.skip(i as int)[0] == stmts@[i as int]);
            let ok = match &stmts[i] {
                Statement::Spawn { items } => self.items_typed(items),
                Statement::ConditionExec { condition, executors } => self.cond_typed(condition)
                    && self.items_typed(executors),
                _ => true,
            };
            if !ok {
                return false;
            }
            i += 1;
        }
        true
    }

    /// Declares the block's variables in order (a later declaration of a
    /// name overrides an earlier one).
    pub fn collect_var_types(&mut self, vars: &VarsBlock) -> (r: CheckResult<()>)
        ensures
            r is Ok,
            final(self).symbols() == old(self).symbols(),
            final(self).vars() == declare_vars(old(self).vars(), vars.vars@),
    {
        let mut i: usize = 0;
        assert(vars.vars@.skip(0) =~= vars.vars@);
        while i < vars.vars.len()
            invariant
                i <= vars.vars@.len(),
                self.symbols() == old(self).symbols(),
                declare_vars(old(self).var_types@, vars.vars@) == declare_vars(self.var_types@, vars.vars@.skip(i as int)),
            decreases vars.vars@.len() - i,
        {
            let var = &vars.vars[i];
            let ty = match var.var_type {
                VarType::Price => TypeSpec::Price,
                VarType::Amount => TypeSpec::Amount,
                VarType::Duration => TypeSpec::Duration,
                VarType::TimePoint => TypeSpec::TimePoint,
                VarType::Percent => TypeSpec::Percent,
                VarType::Count => TypeSpec::Count,
                VarType::Number => TypeSpec::Number,
                VarType::Address => TypeSpec::Address,
            };
            assert(vars.vars@.skip(i as int).drop_first() =~= vars.vars@.skip(i + 1));
            self.var_types.insert(var.name.clone(), ty);
            i += 1;
        }
        Ok(())
    }

    /// The type of a literal.
    fn infer_literal_type(&self, value: &Value) -> (r: TypeSpec)
        ensures
            r@ == lit_ty(*value),
        decreases value,
    {
        match value {
            Value::Number(_) => TypeSpec::Number,
            Value::String(_) => TypeSpec::String,
            Value::Bool(_) => TypeSpec::Bool,
            Value::Percent(_) => TypeSpec::Percent,
            Value::Duration(_) => TypeSpec::Duration,
            Value::Amount(_, _) => TypeSpec::Amount,
            Value::List(items) => {
                let elem = if items.len() > 0 {
                    proof {
                        assert(decreases_to!(*items => items[0]));
                    }
                    self.infer_literal_type(&items[0])
                } else {
                    TypeSpec::Any
                };
                TypeSpec::List(Box::new(elem))
            },
            Value::Mapping(_) => TypeSpec::Any,
            Value::Tuple(items) => {
                let mut types: Vec<TypeSpec> = Vec::new();
                let mut i: usize = 0;
                assert(items@.skip(0) =~= items@);
                assert(tys_of(types@) + lit_tys(items@) =~= lit_tys(items@));
                while i < items.len()
                    invariant
                        i <= items@.len(),
                        tys_of(types@) + lit_tys(items@.skip(i as int)) == lit_tys(items@),
                        decreases_to!(*value => *items),
                    decreases items@.len() - i,
                {
                    proof {
                        assert(decreases_to!(*items => items[i as int]));
                    }
                    let ghost old_types = types@;
                    let t = self.infer_literal_type(&items[i]);
                    types.push(t);
                    proof {
                        assert(types@.drop_last() =~= old_types);
                        assert(items@.skip(i as int).drop_first() =~= items@.skip(i + 1));
                        assert(tys_of(types@) + lit_tys(items@.skip(i + 1)) =~= tys_of(old_types) + lit_tys(items@.skip(i as int)));
                    }
                    i += 1;
                }
                proof {
                    assert(lit_tys(items@.skip(i as int)) =~= Seq::<Ty>::empty());
                    assert(tys_of(types@) =~= lit_tys(items@));
                }
                TypeSpec::Tuple(types)
            },
            Value::Uninit => TypeSpec::Any,
        }
    }

    /// The value type of a looked-up symbol, or the error for a symbol
    /// without one.
    fn returned_type(meta: &SymbolMetadata, message: String) -> (r: CheckResult<TypeSpec>)
        ensures
            ty_result_view(r) == match meta.returns {
                Some(t) => Ok(t@),
                None => Err(ErrorView::Custom(message@)),
            },
    {
        match &meta.returns {
            Some(t) => Ok(t.clone()),
            None => Err(CheckError::Custom(message)),
        }
    }

    /// The type of an expression.
    fn infer_expr_type(&self, expr: &DataExpr) -> (r: CheckResult<TypeSpec>)
        ensures
            ty_result_view(r) == self.scope().infer(*expr),
        decreases expr,
    {
        match expr {
            DataExpr::Var(name) => {
                if let Some(ty) = self.var_types.get(name.as_str()) {
                    return Ok(ty.clone());
                }
                match self.registry.lookup(name.as_str(), SymbolCategory::DataItem) {
                    Some(meta) => Self::returned_type(meta, no_return_item_message(name.as_str())),
                    None => Err(CheckError::UndeclaredVariable { name: name.clone() }),
                }
            },
            DataExpr::Literal(value) => Ok(self.infer_literal_type(value)),
            DataExpr::Symbol(sym) => {
                match self.registry.lookup(sym.name.as_str(), SymbolCategory::DataItem) {
                    Some(meta) => Self::returned_type(meta, no_return_item_message(sym.name.as_str())),
                    None => Err(CheckError::UndefinedSymbol {
                        name: sym.name.clone(),
                        category: SymbolCategory::DataItem,
                    }),
                }
            },
            DataExpr::BinOp { left, op, right } => {
                let left_ty = match self.infer_expr_type(&**left) {
                    Err(e) => return Err(e),
                    Ok(t) => t,
                };
                let right_ty = match self.infer_expr_type(&**right) {
                    Err(e) => return Err(e),
                    Ok(t) => t,
                };
                let bin_op = match op {
                    BinOp::Add => crate::types::BinOp::Add,
                    BinOp::Sub => crate::types::BinOp::Sub,
                    BinOp::Mul => crate::types::BinOp::Mul,
                    BinOp::Div => crate::types::BinOp::Div,
                    BinOp::Or => crate::types::BinOp::Or,
                };
                match TypeChecker::check_binary_op(&left_ty, bin_op, &right_ty) {
                    Some(t) => Ok(t),
                    None => Err(CheckError::InvalidBinaryOp {
                        left: left_ty,
                        op: op.name().to_owned(),
                        right: right_ty,
                    }),
                }
            },
            DataExpr::Call(call) => {
                let name = call.name.name.as_str();
                let found = match self.registry.lookup(name, SymbolCategory::Executor) {
                    Some(m) => Some(m),
                    None => match self.registry.lookup(name, SymbolCategory::Condition) {
                        Some(m) => Some(m),
                        None => self.registry.lookup(name, SymbolCategory::DataItem),
                    },
                };
                match found {
                    Some(meta) => Self::returned_type(meta, no_return_call_message(name)),
                    None => Err(CheckError::UndefinedSymbol {
                        name: call.name.name.clone(),
                        category: SymbolCategory::Executor,
                    }),
                }
            },
            DataExpr::Tuple(items) => {
                let mut types: Vec<TypeSpec> = Vec::new();
                let mut i: usize = 0;
                proof {
                    assert(items@.skip(0) =~= items@);
                    match self.scope().infer_all(items@) {
                        Ok(rest) => {
                            assert(tys_of(types@) + rest =~= rest);
                        },
                        Err(_) => {},
                    }
                }
                while i < items.len()
                    invariant
                        i <= items@.len(),
                        self.scope().infer_all(items@) == match self.scope().infer_all(items@.skip(i as int)) {
                            Ok(rest) => Ok(tys_of(types@) + rest),
                            Err(e) => Err(e),
                        },
                        decreases_to!(*expr => *items),
                        *expr == DataExpr::Tuple(*items),
                    decreases items@.len() - i,
                {
                    proof {
                        assert(decreases_to!(*items => items[i as int]));
                        assert(items@.skip(i as int).drop_first() =~= items@.skip(i + 1));
                        assert(items@.skip(i as int)[0] == items@[i as int]);
                    }
                    let ghost old_types = types@;
                    let t = match self.infer_expr_type(&items[i]) {
                        Err(e) => return Err(e),
                        Ok(t) => t,
                    };
                    types.push(t);
                    proof {
                        assert(types@.drop_last() =~= old_types);
                        match self.scope().infer_all(items@.skip(i + 1)) {
                            Ok(rest) => {
                                assert(tys_of(types@) + rest =~= tys_of(old_types) + (seq![t@] + rest));
                            },
                            Err(_) => {},
                        }
                    }
                    i += 1;
                }
                proof {
                    assert(items@.skip(i as int) =~= Seq::<DataExpr>::empty());
                    assert(tys_of(types@) + Seq::<Ty>::empty() =~= tys_of(types@));
                }
                Ok(TypeSpec::Tuple(types))
            },
        }
    }

    /// Checks the monitor block: the monitor call, the buy statements, the
    /// buy-else statements, the sell statements, then the finally list.
    fn check_monitor_block(&self, monitor: &MonitorBlock) -> (r: CheckResult<()>)
        requires
            monitor_params_typed(self.symbols(), *monitor),
        ensures
            result_view(r) == self.scope().monitor_check(*monitor),
    {
        match self.check_call_expr(&monitor.monitor_call, SymbolCategory::Monitor) {
            Err(e) => return Err(e),
            Ok(_) => {},
        }
        match self.check_statements(&monitor.on_trigger.buy) {
            Err(e) => return Err(e),
            Ok(_) => {},
        }
        match self.check_statements(&monitor.on_trigger.buy_else) {
            Err(e) => return Err(e),
            Ok(_) => {},
        }
        match self.check_statements(&monitor.on_trigger.sell) {
            Err(e) => return Err(e),
            Ok(_) => {},
        }
        if !monitor.on_trigger.sell_finally.is_empty() {
            match self.check_executor_sequence(&monitor.on_trigger.sell_finally) {
                Err(e) => return Err(e),
                Ok(_) => {},
            }
        }
        Ok(())
    }

    /// Checks statements in order.
    fn check_statements(&self, stmts: &Vec<Statement>) -> (r: CheckResult<()>)
        requires
            stmts_params_typed(self.symbols(), stmts@),
        ensures
            result_view(r) == self.scope().stmts_check(stmts@),
    {
        let mut i: usize = 0;
        assert(stmts@.skip(0) =~= stmts@);
        while i < stmts.len()
            invariant
                i <= stmts@.len(),
                stmts_params_typed(self.symbols(), stmts@.skip(i as int)),
                self.scope().stmts_check(stmts@) == self.scope().stmts_check(stmts@.skip(i as int)),
            decreases stmts@.len() - i,
        {
            assert(stmts@.skip(i as int).drop_first() =~= stmts@.skip(i + 1));
            assert(stmts@.skip(i as int)[0] == stmts@[i as int]);
            match self.check_statement(&stmts[i]) {
                Err(e) => return Err(e),
                Ok(_) => {},
            }
            i += 1;
        }
        Ok(())
    }

    /// Checks one destructuring target against the type it receives.
    fn check_target(&self, target: &Option<String>, ty: &TypeSpec) -> (r: CheckResult<()>)
        ensures
            result_view(r) == self.scope().target_check(*target, ty@),
    {
        match target {
            None => Ok(()),
            Some(var_name) => match self.var_types.get(var_name.as_str()) {
                None => Err(CheckError::UndeclaredVariable { name: var_name.clone() }),
                Some(var_type) => {
                    if TypeChecker::is_compatible(var_type, ty) {
                        Ok(())
                    } else {
                        Err(CheckError::VariableTypeMismatch {
                            name: var_name.clone(),
                            expected: var_type.clone(),
                            actual: ty.clone(),
                        })
                    }
                },
            },
        }
    }

    /// Checks that every named target is a declared variable.
    fn check_declared_targets(&self, targets: &Vec<Option<String>>) -> (r: CheckResult<()>)
        ensures
            result_view(r) == self.scope().declared_targets(targets@),
    {
        let mut i: usize = 0;
        assert(targets@.skip(0) =~= targets@);
        while i < targets.len()
            invariant
                i <= targets@.len(),
                self.scope().declared_targets(targets@) == self.scope().declared_targets(targets@.skip(i as int)),
            decreases targets@.len() - i,
        {
            assert(targets@.skip(i as int).drop_first() =~= targets@.skip(i + 1));
            assert(targets@.skip(i as int)[0] == targets@[i as int]);
            if let Some(name) = &targets[i] {
                if !self.var_types.contains_key(name.as_str()) {
                    return Err(CheckError::UndeclaredVariable { name: name.clone() });
                }
            }
            i += 1;
        }
        Ok(())
    }

    /// Checks a destructuring: the value must be a tuple of as many elements
    /// as there are targets, each compatible with its target; a value of type
    /// `Any` only needs declared targets; any other value binds at most one
    /// target.
    #[verifier::loop_isolation(false)]
    fn check_destructure_targets(&self, targets: &Vec<Option<String>>, value: &DataExpr) -> (r: CheckResult<()>)
        ensures
            result_view(r) == self.scope().destructure(targets@, *value),
    {
        let value_type = match self.infer_expr_type(value) {
            Err(e) => return Err(e),
            Ok(t) => t,
        };
        match &value_type {
            TypeSpec::Tuple(tuple_types) => {
                let ghost ts = tys_of(tuple_types@);
                proof {
                    lemma_tys_of(tuple_types@);
                }
                if targets.len() != tuple_types.len() {
                    return Err(CheckError::Custom(arity_message(targets.len(), tuple_types.len())));
                }
                let mut i: usize = 0;
                assert(targets@.skip(0) =~= targets@);
                assert(ts.skip(0) =~= ts);
                while i < targets.len()
                    invariant
                        i <= targets@.len(),
                        targets@.len() == tuple_types@.len(),
                        ts == tys_of(tuple_types@),
                        ts.len() == tuple_types@.len(),
                        forall|j: int| 0 <= j < tuple_types@.len() ==> #[trigger] ts[j] == tuple_types@[j]@,
                        self.scope().zip_targets(targets@, ts) == self.scope().zip_targets(targets@.skip(i as int), ts.skip(i as int)),
                    decreases targets@.len() - i,
                {
                    assert(targets@.skip(i as int).drop_first() =~= targets@.skip(i + 1));
                    assert(ts.skip(i as int).drop_first() =~= ts.skip(i + 1));
                    assert(targets@.skip(i as int)[0] == targets@[i as int]);
                    assert(ts.skip(i as int)[0] == ts[i as int]);
                    match self.check_target(&targets[i], &tuple_types[i]) {
                        Err(e) => return Err(e),
                        Ok(_) => {},
                    }
                    i += 1;
                }
                Ok(())
            },
            TypeSpec::Any => self.check_declared_targets(targets),
            _ => {
                if targets.len() > 1 {
                    return Err(CheckError::Custom(single_value_message(&value_type, targets.len())));
                }
                if targets.len() == 1 {
                    self.check_target(&targets[0], &value_type)
                } else {
                    Ok(())
                }
            },
        }
    }

    /// Checks an assignment to a declared variable.
    fn check_assign(&self, var_name: &String, value: &DataExpr) -> (r: CheckResult<()>)
        ensures
            result_view(r) == self.scope().assign(var_name@, *value),
    {
        let var_type = match self.var_types.get(var_name.as_str()) {
            None => return Err(CheckError::UndeclaredVariable { name: var_name.clone() }),
            Some(t) => t,
        };
        let value_type = match self.infer_expr_type(value) {
            Err(e) => return Err(e),
            Ok(t) => t,
        };
        if !TypeChecker::is_compatible(var_type, &value_type) {
            return Err(CheckError::VariableTypeMismatch {
                name: var_name.clone(),
                expected: var_type.clone(),
                actual: value_type,
            });
        }
        Ok(())
    }

    /// Checks a statement.
    fn check_statement(&self, stmt: &Statement) -> (r: CheckResult<()>)
        requires
            stmt_params_typed(self.symbols(), *stmt),
        ensures
            result_view(r) == self.scope().stmt_check(*stmt),
    {
        match stmt {
            Statement::LetAssign { var_name, value } => self.check_assign(var_name, value),
            Statement::Executor { call } => {
                let name = call.name.name.as_str();
                if self.registry.lookup(name, SymbolCategory::Executor).is_some() {
                    self.check_call_expr(call, SymbolCategory::Executor)
                } else if self.registry.lookup(name, SymbolCategory::DataItem).is_some() {
                    Ok(())
                } else {
                    Err(CheckError::UndefinedSymbol {
                        name: call.name.name.clone(),
                        category: SymbolCategory::Executor,
                    })
                }
            },
            Statement::Spawn { items } => self.check_executor_sequence(items),
            Statement::ConditionExec { condition, executors } => {
                match self.check_condition(condition) {
                    Err(e) => return Err(e),
                    Ok(_) => {},
                }
                self.check_executor_sequence(executors)
            },
            Statement::LetDestructure { targets, value } => self.check_destructure_targets(targets, value),
        }
    }

    /// Checks a call of a symbol of the given category: the symbol is
    /// registered, every required parameter is given, and every argument is
    /// well typed.
    #[verifier::loop_isolation(false)]
    fn check_call_expr(&self, call: &CallExpr, expected_category: SymbolCategory) -> (r: CheckResult<()>)
        ensures
            result_view(r) == self.scope().call_check(*call, expected_category),
    {
        let meta = match self.registry.lookup(call.name.name.as_str(), expected_category) {
            None => return Err(CheckError::UndefinedSymbol {
                name: call.name.name.clone(),
                category: expected_category,
            }),
            Some(m) => m,
        };
        let mut i: usize = 0;
        assert(meta.params@.skip(0) =~= meta.params@);
        while i < meta.params.len()
            invariant
                i <= meta.params@.len(),
                missing_named(meta.params@, call.args@) == missing_named(meta.params@.skip(i as int), call.args@),
            decreases meta.params@.len() - i,
        {
            assert(meta.params@.skip(i as int).drop_first() =~= meta.params@.skip(i + 1));
            assert(meta.params@.skip(i as int)[0] == meta.params@[i as int]);
            let param_spec = &meta.params[i];
            if param_spec.required && !named_arg_present(&call.args, param_spec.name) {
                return Err(CheckError::MissingRequiredParam {
                    executor: call.name.name.clone(),
                    param: param_spec.name.to_owned(),
                });
            }
            i += 1;
        }
        let mut j: usize = 0;
        assert(call.args@.skip(0) =~= call.args@);
        while j < call.args.len()
            invariant
                j <= call.args@.len(),
                self.scope().infer_named_args(call.args@) == self.scope().infer_named_args(call.args@.skip(j as int)),
            decreases call.args@.len() - j,
        {
            assert(call.args@.skip(j as int).drop_first() =~= call.args@.skip(j + 1));
            assert(call.args@.skip(j as int)[0] == call.args@[j as int]);
            match self.infer_expr_type(&call.args[j].value) {
                Err(e) => return Err(e),
                Ok(_) => {},
            }
            j += 1;
        }
        Ok(())
    }

    /// Checks an executor call of an executor list: the executor is
    /// registered, every required parameter is given, and every argument is
    /// well typed and accepted by the parameter of its name.
    #[verifier::loop_isolation(false)]
    fn check_executor_call(&self, call: &ExecutorCall) -> (r: CheckResult<()>)
        requires
            call_params_typed(self.symbols(), *call),
        ensures
            result_view(r) == self.scope().executor_call_check(*call),
    {
        let name = call.executor.name.as_str();
        let meta = match self.registry.lookup(name, SymbolCategory::Executor) {
            None => return Err(CheckError::UndefinedSymbol {
                name: call.executor.name.clone(),
                category: SymbolCategory::Executor,
            }),
            Some(m) => m,
        };
        let mut i: usize = 0;
        assert(meta.params@.skip(0) =~= meta.params@);
        while i < meta.params.len()
            invariant
                i <= meta.params@.len(),
                missing_keyed(meta.params@, call.args@) == missing_keyed(meta.params@.skip(i as int), call.args@),
            decreases meta.params@.len() - i,
        {
            assert(meta.params@.skip(i as int).drop_first() =~= meta.params@.skip(i + 1));
            assert(meta.params@.skip(i as int)[0] == meta.params@[i as int]);
            let param_spec = &meta.params[i];
            if param_spec.required && !keyed_arg_present(&call.args, param_spec.name) {
                return Err(CheckError::MissingRequiredParam {
                    executor: call.executor.name.clone(),
                    param: param_spec.name.to_owned(),
                });
            }
            i += 1;
        }
        let ghost key = (name@, SymbolCategory::Executor);
        assert(self.symbols().contains_key(key) && *meta == self.symbols()[key]);
        let mut j: usize = 0;
        assert(call.args@.skip(0) =~= call.args@);
        while j < call.args.len()
            invariant
                j <= call.args@.len(),
                keyed_params_typed(meta.params@, call.args@),
                self.symbols().contains_key(key) && *meta == self.symbols()[key],
                self.scope().keyed_args_check(meta.params@, name@, call.args@)
                    == self.scope().keyed_args_check(meta.params@, name@, call.args@.skip(j as int)),
            decreases call.args@.len() - j,
        {
            assert(call.args@.skip(j as int).drop_first() =~= call.args@.skip(j + 1));
            assert(call.args@.skip(j as int)[0] == call.args@[j as int]);
            let arg_name = &call.args[j].0;
            let arg_type = match self.infer_expr_type(&call.args[j].1) {
                Err(e) => return Err(e),
                Ok(t) => t,
            };
            if let Some(k) = find_param_index(&meta.params, arg_name.as_str()) {
                let param_spec = &meta.params[k];
                if !param_spec.accepts_type(&arg_type) {
                    assert(find_param(meta.params@, call.args@[j as int].0@) == Some(meta.params@[k as int]));
                    assert(meta.params@[k as int].allowed_types@.len() > 0);
                    return Err(CheckError::TypeMismatch {
                        expected: param_spec.allowed_types[0].clone(),
                        actual: arg_type,
                        context: param_context_message(name, arg_name.as_str()),
                    });
                }
            }
            j += 1;
        }
        Ok(())
    }

    /// Checks one item of an executor list.
    fn check_executor_item(&self, item: &ExecutorItem) -> (r: CheckResult<()>)
        requires
            item_params_typed(self.symbols(), *item),
        ensures
            result_view(r) == self.scope().item_check(*item),
        decreases item,
    {
        match item {
            ExecutorItem::Executor(call) => self.check_executor_call(call),
            ExecutorItem::LetAssign { var_name, value } => self.check_assign(var_name, value),
            ExecutorItem::LetDestructure { targets, value } => self.check_destructure_targets(targets, value),
            ExecutorItem::CondExec { condition, executors } => {
                match self.check_condition(condition) {
                    Err(e) => return Err(e),
                    Ok(_) => {},
                }
                self.check_executor_sequence(executors)
            },
        }
    }

    /// Checks an executor list, item by item.
    fn check_executor_sequence(&self, executors: &Vec<ExecutorItem>) -> (r: CheckResult<()>)
        requires
            items_params_typed(self.symbols(), executors@),
        ensures
            result_view(r) == self.scope().items_check(executors@),
        decreases executors,
    {
        let mut i: usize = 0;
        assert(executors@.skip(0) =~= executors@);
        while i < executors.len()
            invariant
                i <= executors@.len(),
                items_params_typed(self.symbols(), executors@.skip(i as int)),
                self.scope().items_check(executors@) == self.scope().items_check(executors@.skip(i as int)),
            decreases executors@.len() - i,
        {
            proof {
                assert(decreases_to!(*executors => executors[i as int]));
            }
            assert(executors@.skip(i as int).drop_first() =~= executors@.skip(i + 1));
            assert(executors@.skip(i as int)[0] == executors@[i as int]);
            match self.check_executor_item(&executors[i]) {
                Err(e) => return Err(e),
                Ok(_) => {},
            }
            i += 1;
        }
        Ok(())
    }

    /// Checks a condition.
    #[verifier::loop_isolation(false)]
    fn check_condition(&self, condition: &Condition) -> (r: CheckResult<()>)
        requires
            cond_params_typed(self.symbols(), *condition),
        ensures
            result_view(r) == self.scope().cond_check(*condition),
        decreases condition,
    {
        match condition {
            Condition::Compare { left, op: _, right } => {
                let left_ty = match self.infer_expr_type(left) {
                    Err(e) => return Err(e),
                    Ok(t) => t,
                };
                let right_ty = match self.infer_expr_type(right) {
                    Err(e) => return Err(e),
                    Ok(t) => t,
                };
                if !TypeChecker::check_compare_op(&left_ty, &right_ty) {
                    return Err(CheckError::InvalidCompare { left: left_ty, right: right_ty });
                }
                Ok(())
            },
            Condition::Call(call_expr) => self.check_call_expr(call_expr, SymbolCategory::Condition),
            Condition::LetBound { targets, inner } => {
                match self.check_condition(&**inner) {
                    Err(e) => return Err(e),
                    Ok(_) => {},
                }
                self.check_declared_targets(targets)
            },
            Condition::Combinator { name, conditions } => {
                if self.registry.lookup(name.as_str(), SymbolCategory::Condition).is_none() {
                    return Err(CheckError::UndefinedSymbol {
                        name: name.clone(),
                        category: SymbolCategory::Condition,
                    });
                }
                let mut i: usize = 0;
                assert(conditions@.skip(0) =~= conditions@);
                while i < conditions.len()
                    invariant
                        i <= conditions@.len(),
                        conds_params_typed(self.symbols(), conditions@.skip(i as int)),
                        self.scope().conds_check(conditions@) == self.scope().conds_check(conditions@.skip(i as int)),
                        decreases_to!(*condition => *conditions),
                        *condition == (Condition::Combinator { name: *name, conditions: *conditions }),
                    decreases conditions@.len() - i,
                {
                    proof {
                        assert(decreases_to!(*conditions => conditions[i as int]));
                    }
                    assert(conditions@.skip(i as int).drop_first() =~= conditions@.skip(i + 1));
                    assert(conditions@.skip(i as int)[0] == conditions@[i as int]);
                    match self.check_condition(&conditions[i]) {
                        Err(e) => return Err(e),
                        Ok(_) => {},
                    }
                    i += 1;
                }
                Ok(())
            },
            Condition::Sequence { items } => self.check_executor_sequence(items),
            Condition::Default => Ok(()),
        }
    }

    /// Checks the flow of implicit contexts through the monitor block, from
    /// no context: the monitor, the buy statements, the buy-else statements
    /// on a copy, the sell statements, then the finally list.
    fn check_context_flow(&self, monitor: &MonitorBlock) -> (r: CheckResult<()>)
        ensures
            result_view(r) == self.scope().context_flow(*monitor),
    {
        let mut tracker = ContextFlowTracker::new();
        match self.apply_symbol_ctx(monitor.monitor_call.name.name.as_str(), SymbolCategory::Monitor, &mut tracker) {
            Err(e) => return Err(e),
            Ok(_) => {},
        }
        match self.check_stmts_ctx(&monitor.on_trigger.buy, &mut tracker) {
            Err(e) => return Err(e),
            Ok(_) => {},
        }
        let mut alternative = tracker.branch();
        match self.check_stmts_ctx(&monitor.on_trigger.buy_else, &mut alternative) {
            Err(e) => return Err(e),
            Ok(_) => {},
        }
        match self.check_stmts_ctx(&monitor.on_trigger.sell, &mut tracker) {
            Err(e) => return Err(e),
            Ok(_) => {},
        }
        match self.check_items_ctx(&monitor.on_trigger.sell_finally, &mut tracker) {
            Err(e) => return Err(e),
            Ok(_) => {},
        }
        Ok(())
    }

    /// Applies a symbol's context interactions, in order.
    #[verifier::loop_isolation(false)]
    fn apply_symbol_ctx(&self, name: &str, category: SymbolCategory, tracker: &mut ContextFlowTracker) -> (r: CheckResult<()>)
        ensures
            ctx_outcome(r, final(tracker)@) == self.scope().apply_symbol(name@, category, old(tracker)@),
    {
        if let Some(meta) = self.registry.lookup(name, category) {
            let mut i: usize = 0;
            assert(meta.contexts@.skip(0) =~= meta.contexts@);
            while i < meta.contexts.len()
                invariant
                    i <= meta.contexts@.len(),
                    apply_contexts(meta.contexts@, name@, old(tracker)@)
                        == apply_contexts(meta.contexts@.skip(i as int), name@, tracker@),
                decreases meta.contexts@.len() - i,
            {
                assert(meta.contexts@.skip(i as int).drop_first() =~= meta.contexts@.skip(i + 1));
                assert(meta.contexts@.skip(i as int)[0] == meta.contexts@[i as int]);
                let ix = &meta.contexts[i];
                let proto = ix.protocol;
                match ix.op {
                    ContextOp::Produce => {
                        if tracker.contains(proto) {
                            return Err(CheckError::ContextAlreadyProduced {
                                protocol: proto.to_owned(),
                                symbol: name.to_owned(),
                            });
                        }
                        tracker.insert(proto);
                    },
                    ContextOp::Need => {
                        if !tracker.contains(proto) {
                            return Err(CheckError::ContextNotAvailable {
                                protocol: proto.to_owned(),
                                symbol: name.to_owned(),
                                op: ix.op.to_string(),
                            });
                        }
                    },
                    ContextOp::Consume => {
                        if !tracker.contains(proto) {
                            return Err(CheckError::ContextNotAvailable {
                                protocol: proto.to_owned(),
                                symbol: name.to_owned(),
                                op: ix.op.to_string(),
                            });
                        }
                        tracker.remove(proto);
                    },
                }
                i += 1;
            }
        }
        Ok(())
    }

    /// The context flow of named arguments, in order.
    fn check_call_args_ctx(&self, args: &Vec<NamedArg>, tracker: &mut ContextFlowTracker) -> (r: CheckResult<()>)
        ensures
            ctx_outcome(r, final(tracker)@) == self.scope().args_ctx(args@, old(tracker)@),
        decreases args,
    {
        let mut i: usize = 0;
        assert(args@.skip(0) =~= args@);
        while i < args.len()
            invariant
                i <= args@.len(),
                self.scope().args_ctx(args@, old(tracker)@) == self.scope().args_ctx(args@.skip(i as int), tracker@),
            decreases args@.len() - i,
        {
            proof {
                assert(decreases_to!(*args => args[i as int]));
            }
            assert(args@.skip(i as int).drop_first() =~= args@.skip(i + 1));
            assert(args@.skip(i as int)[0] == args@[i as int]);
            match self.check_expr_ctx(&args[i].value, tracker) {
                Err(e) => return Err(e),
                Ok(_) => {},
            }
            i += 1;
        }
        Ok(())
    }

    /// The context flow of keyed arguments, in order.
    fn check_keyed_args_ctx(&self, args: &Vec<(String, DataExpr)>, tracker: &mut ContextFlowTracker) -> (r: CheckResult<()>)
        ensures
            ctx_outcome(r, final(tracker)@) == self.scope().keyed_ctx(args@, old(tracker)@),
    {
        let mut i: usize = 0;
        assert(args@.skip(0) =~= args@);
        while i < args.len()
            invariant
                i <= args@.len(),
                self.scope().keyed_ctx(args@, old(tracker)@) == self.scope().keyed_ctx(args@.skip(i as int), tracker@),
            decreases args@.len() - i,
        {
            assert(args@.skip(i as int).drop_first() =~= args@.skip(i + 1));
            assert(args@.skip(i as int)[0] == args@[i as int]);
            match self.check_expr_ctx(&args[i].1, tracker) {
                Err(e) => return Err(e),
                Ok(_) => {},
            }
            i += 1;
        }
        Ok(())
    }

    /// The context flow of statements, in order.
    fn check_stmts_ctx(&self, stmts: &Vec<Statement>, tracker: &mut ContextFlowTracker) -> (r: CheckResult<()>)
        ensures
            ctx_outcome(r, final(tracker)@) == self.scope().stmts_ctx(stmts@, old(tracker)@),
    {
        let mut i: usize = 0;
        assert(stmts@.skip(0) =~= stmts@);
        while i < stmts.len()
            invariant
                i <= stmts@.len(),
                self.scope().stmts_ctx(stmts@, old(tracker)@) == self.scope().stmts_ctx(stmts@.skip(i as int), tracker@),
            decreases stmts@.len() - i,
        {
            assert(stmts@.skip(i as int).drop_first() =~= stmts@.skip(i + 1));
            assert(stmts@.skip(i as int)[0] == stmts@[i as int]);
            match self.check_stmt_ctx(&stmts[i], tracker) {
                Err(e) => return Err(e),
                Ok(_) => {},
            }
            i += 1;
        }
        Ok(())
    }

    /// The context flow of one statement: a conditional list and a spawned
    /// list run on a copy of the contexts, and their changes do not flow back.
    fn check_stmt_ctx(&self, stmt: &Statement, tracker: &mut ContextFlowTracker) -> (r: CheckResult<()>)
        ensures
            ctx_outcome(r, final(tracker)@) == self.scope().stmt_ctx(*stmt, old(tracker)@),
    {
        match stmt {
            Statement::LetAssign { value, .. } => self.check_expr_ctx(value, tracker),
            Statement::Executor { call } => {
                let name = call.name.name.as_str();
                let cat = if self.registry.lookup(name, SymbolCategory::Executor).is_some() {
                    SymbolCategory::Executor
                } else {
                    SymbolCategory::DataItem
                };
                match self.apply_symbol_ctx(name, cat, tracker) {
                    Err(e) => return Err(e),
                    Ok(_) => {},
                }
                self.check_call_args_ctx(&call.args, tracker)
            },
            Statement::ConditionExec { condition, executors } => {
                match self.check_condition_ctx(condition, tracker) {
                    Err(e) => return Err(e),
                    Ok(_) => {},
                }
                let mut branch = tracker.branch();
                match self.check_items_ctx(executors, &mut branch) {
                    Err(e) => return Err(e),
                    Ok(_) => {},
                }
                Ok(())
            },
            Statement::LetDestructure { value, .. } => self.check_data_expr_ctx(value, tracker),
            Statement::Spawn { items } => {
                let mut branch = tracker.branch();
                match self.check_items_ctx(items, &mut branch) {
                    Err(e) => return Err(e),
                    Ok(_) => {},
                }
                Ok(())
            },
        }
    }

    /// The context flow of one executor-list item.
    fn check_exec_item_ctx(&self, item: &ExecutorItem, tracker: &mut ContextFlowTracker) -> (r: CheckResult<()>)
        ensures
            ctx_outcome(r, final(tracker)@) == self.scope().item_ctx(*item, old(tracker)@),
        decreases item,
    {
        match item {
            ExecutorItem::Executor(call) => {
                match self.apply_symbol_ctx(call.executor.name.as_str(), SymbolCategory::Executor, tracker) {
                    Err(e) => return Err(e),
                    Ok(_) => {},
                }
                self.check_keyed_args_ctx(&call.args, tracker)
            },
            ExecutorItem::LetAssign { value, .. } => self.check_expr_ctx(value, tracker),
            ExecutorItem::LetDestructure { value, .. } => self.check_data_expr_ctx(value, tracker),
            ExecutorItem::CondExec { condition, executors } => {
                match self.check_condition_ctx(condition, tracker) {
                    Err(e) => return Err(e),
                    Ok(_) => {},
                }
                let mut branch = tracker.branch();
                match self.check_items_ctx(executors, &mut branch) {
                    Err(e) => return Err(e),
                    Ok(_) => {},
                }
                Ok(())
            },
        }
    }

    /// The context flow of an executor list, in order.
    fn check_items_ctx(&self, items: &Vec<ExecutorItem>, tracker: &mut ContextFlowTracker) -> (r: CheckResult<()>)
        ensures
            ctx_outcome(r, final(tracker)@) == self.scope().items_ctx(items@, old(tracker)@),
        decreases items,
    {
        let mut i: usize = 0;
        assert(items@.skip(0) =~= items@);
        while i < items.len()
            invariant
                i <= items@.len(),
                self.scope().items_ctx(items@, old(tracker)@) == self.scope().items_ctx(items@.skip(i as int), tracker@),
            decreases items@.len() - i,
        {
            proof {
                assert(decreases_to!(*items => items[i as int]));
            }
            assert(items@.skip(i as int).drop_first() =~= items@.skip(i + 1));
            assert(items@.skip(i as int)[0] == items@[i as int]);
            match self.check_exec_item_ctx(&items[i], tracker) {
                Err(e) => return Err(e),
                Ok(_) => {},
            }
            i += 1;
        }
        Ok(())
    }

    /// The context flow of a condition: each sub-condition of a combinator
    /// runs on its own copy of the contexts.
    #[verifier::loop_isolation(false)]
    fn check_condition_ctx(&self, cond: &Condition, tracker: &mut ContextFlowTracker) -> (r: CheckResult<()>)
        ensures
            ctx_outcome(r, final(tracker)@) == self.scope().cond_ctx(*cond, old(tracker)@),
        decreases cond,
    {
        match cond {
            Condition::Compare { left, right, .. } => {
                match self.check_expr_ctx(left, tracker) {
                    Err(e) => return Err(e),
                    Ok(_) => {},
                }
                self.check_expr_ctx(right, tracker)
            },
            Condition::Call(call) => {
                match self.apply_symbol_ctx(call.name.name.as_str(), SymbolCategory::Condition, tracker) {
                    Err(e) => return Err(e),
                    Ok(_) => {},
                }
                self.check_call_args_ctx(&call.args, tracker)
            },
            Condition::Combinator { name: _, conditions } => {
                let ghost st = tracker@;
                let mut i: usize = 0;
                assert(conditions@.skip(0) =~= conditions@);
                while i < conditions.len()
                    invariant
                        i <= conditions@.len(),
                        tracker@ == st,
                        self.scope().branches_ctx(conditions@, st) == self.scope().branches_ctx(conditions@.skip(i as int), st),
                    decreases conditions@.len() - i,
                {
                    proof {
                        assert(decreases_to!(*conditions => conditions[i as int]));
                    }
                    assert(conditions@.skip(i as int).drop_first() =~= conditions@.skip(i + 1));
                    assert(conditions@.skip(i as int)[0] == conditions@[i as int]);
                    let mut branch = tracker.branch();
                    match self.check_condition_ctx(&conditions[i], &mut branch) {
                        Err(e) => return Err(e),
                        Ok(_) => {},
                    }
                    i += 1;
                }
                Ok(())
            },
            Condition::Sequence { items } => self.check_items_ctx(items, tracker),
            Condition::LetBound { inner, .. } => self.check_condition_ctx(&**inner, tracker),
            Condition::Default => Ok(()),
        }
    }

    /// The context flow of an expression.
    #[verifier::loop_isolation(false)]
    fn check_expr_ctx(&self, expr: &DataExpr, tracker: &mut ContextFlowTracker) -> (r: CheckResult<()>)
        ensures
            ctx_outcome(r, final(tracker)@) == self.scope().expr_ctx(*expr, old(tracker)@),
        decreases expr,
    {
        match expr {
            DataExpr::Var(name) => {
                if !self.var_types.contains_key(name.as_str()) {
                    if let Some(meta) = self.registry.lookup(name.as_str(), SymbolCategory::DataItem) {
                        let mut i: usize = 0;
                        assert(meta.contexts@.skip(0) =~= meta.contexts@);
                        while i < meta.contexts.len()
                            invariant
                                i <= meta.contexts@.len(),
                                tracker@ == old(tracker)@,
                                needed_contexts(meta.contexts@, name@, tracker@)
                                    == needed_contexts(meta.contexts@.skip(i as int), name@, tracker@),
                            decreases meta.contexts@.len() - i,
                        {
                            assert(meta.contexts@.skip(i as int).drop_first() =~= meta.contexts@.skip(i + 1));
                            assert(meta.contexts@.skip(i as int)[0] == meta.contexts@[i as int]);
                            let ix = &meta.contexts[i];
                            let proto = ix.protocol;
                            if matches!(ix.op, ContextOp::Need | ContextOp::Consume) && !tracker.contains(proto) {
                                return Err(CheckError::ContextNotAvailable {
                                    protocol: proto.to_owned(),
                                    symbol: name.clone(),
                                    op: ix.op.to_string(),
                                });
                            }
                            i += 1;
                        }
                    }
                }
                Ok(())
            },
            DataExpr::Symbol(sym) => self.apply_symbol_ctx(sym.name.as_str(), SymbolCategory::DataItem, tracker),
            DataExpr::BinOp { left, right, .. } => {
                match self.check_expr_ctx(&**left, tracker) {
                    Err(e) => return Err(e),
                    Ok(_) => {},
                }
                self.check_expr_ctx(&**right, tracker)
            },
            DataExpr::Literal(_) => Ok(()),
            DataExpr::Call(call) => self.check_data_expr_call_ctx(call, tracker),
            DataExpr::Tuple(exprs) => {
                let mut i: usize = 0;
                assert(exprs@.skip(0) =~= exprs@);
                while i < exprs.len()
                    invariant
                        i <= exprs@.len(),
                        self.scope().exprs_ctx(exprs@, old(tracker)@) == self.scope().exprs_ctx(exprs@.skip(i as int), tracker@),
                    decreases exprs@.len() - i,
                {
                    proof {
                        assert(decreases_to!(*exprs => exprs[i as int]));
                    }
                    assert(exprs@.skip(i as int).drop_first() =~= exprs@.skip(i + 1));
                    assert(exprs@.skip(i as int)[0] == exprs@[i as int]);
                    match self.check_expr_ctx(&exprs[i], tracker) {
                        Err(e) => return Err(e),
                        Ok(_) => {},
                    }
                    i += 1;
                }
                Ok(())
            },
        }
    }

    /// The context flow of a call in an expression: it acts as an executor,
    /// else a condition, else a data item.
    fn check_data_expr_call_ctx(&self, call: &CallExpr, tracker: &mut ContextFlowTracker) -> (r: CheckResult<()>)
        ensures
            ctx_outcome(r, final(tracker)@) == self.scope().expr_ctx(DataExpr::Call(*call), old(tracker)@),
        decreases call,
    {
        let name = call.name.name.as_str();
        let cat = if self.registry.lookup(name, SymbolCategory::Executor).is_some() {
            SymbolCategory::Executor
        } else if self.registry.lookup(name, SymbolCategory::Condition).is_some() {
            SymbolCategory::Condition
        } else {
            SymbolCategory::DataItem
        };
        match self.apply_symbol_ctx(name, cat, tracker) {
            Err(e) => return Err(e),
            Ok(_) => {},
        }
        self.check_call_args_ctx(&call.args, tracker)
    }

    /// The context flow of the value of a destructuring binding.
    fn check_data_expr_ctx(&self, expr: &DataExpr, tracker: &mut ContextFlowTracker) -> (r: CheckResult<()>)
        ensures
            ctx_outcome(r, final(tracker)@) == self.scope().expr_ctx(*expr, old(tracker)@),
    {
        self.check_expr_ctx(expr, tracker)
    }
}

/// Whether some named argument has the given name.
fn named_arg_present(args: &Vec<NamedArg>, name: &str) -> (r: bool)
    ensures
        r == named_arg_given(args@, name@),
{
    let mut i: usize = 0;
    while i < args.len()
        invariant
            i <= args@.len(),
            forall|j: int| 0 <= j < i ==> (#[trigger] args@[j]).name@ != name@,
        decreases args@.len() - i,
    {
        if str_eq(args[i].name.as_str(), name) {
            return true;
        }
        i += 1;
    }
    false
}

/// Whether some keyed argument has the given name.
fn keyed_arg_present(args: &Vec<(String, DataExpr)>, name: &str) -> (r: bool)
    ensures
        r == keyed_arg_given(args@, name@),
{
    let mut i: usize = 0;
    while i < args.len()
        invariant
            i <= args@.len(),
            forall|j: int| 0 <= j < i ==> (#[trigger] args@[j]).0@ != name@,
        decreases args@.len() - i,
    {
        if str_eq(args[i].0.as_str(), name) {
            return true;
        }
        i += 1;
    }
    false
}

/// The position of the first parameter with the given name.
fn find_param_index(params: &Vec<ParamSpec>, name: &str) -> (r: Option<usize>)
    ensures
        match r {
            Some(i) => i < params@.len() && find_param(params@, name@) == Some(params@[i as int]),
            None => find_param(params@, name@) is None,
        },
{
    let mut i: usize = 0;
    assert(params@.skip(0) =~= params@);
    while i < params.len()
        invariant
            i <= params@.len(),
            find_param(params@, name@) == find_param(params@.skip(i as int), name@),
        decreases params@.len() - i,
    {
        assert(params@.skip(i as int).drop_first() =~= params@.skip(i + 1));
        assert(params@.skip(i as int)[0] == params@[i as int]);
        if str_eq(params[i].name, name) {
            return Some(i);
        }
        i += 1;
    }
    None
}

} // verus!
