use trade_meta_compiler::ast::FloatBits;
use trade_meta_compiler::symbol_table::{
    ContextInteraction, ParamSpec, SymbolCategory, SymbolMetadata, SymbolRegistry,
};
use trade_meta_compiler::{
    builtin_symbol_registry, BinOp, CallExpr, CheckError, Checker, CompareOp, Condition, DataExpr,
    ExecutorCall, ExecutorItem, MonitorBlock, NamedArg, Statement, Strategy, StrategyMeta,
    SymbolRef, TriggerBody, TypeSpec, Value, VarDecl, VarType, VarsBlock,
};

fn sym(
    name: &'static str,
    category: SymbolCategory,
    returns: Option<TypeSpec>,
    params: Vec<ParamSpec>,
    contexts: Vec<ContextInteraction>,
) -> SymbolMetadata {
    SymbolMetadata { name, returns, params, category, contexts }
}

fn registry() -> SymbolRegistry {
    let mut r = builtin_symbol_registry();
    r.register(sym(
        "PriceAbove",
        SymbolCategory::Monitor,
        None,
        vec![ParamSpec::required("price", TypeSpec::Price)],
        vec![ContextInteraction::produce("position")],
    ));
    r.register(sym("PumpPrice", SymbolCategory::DataItem, Some(TypeSpec::Price), vec![], vec![ContextInteraction::need("position")]));
    r.register(sym("Nothing", SymbolCategory::DataItem, None, vec![], vec![]));
    r.register(sym(
        "Quote",
        SymbolCategory::DataItem,
        Some(TypeSpec::Tuple(vec![TypeSpec::Price, TypeSpec::Amount])),
        vec![],
        vec![],
    ));
    r.register(sym(
        "Buy",
        SymbolCategory::Executor,
        Some(TypeSpec::Tuple(vec![TypeSpec::Price, TypeSpec::Amount])),
        vec![ParamSpec::required("amount", TypeSpec::Amount)],
        vec![ContextInteraction::need("position")],
    ));
    r.register(sym("Sell", SymbolCategory::Executor, None, vec![], vec![ContextInteraction::consume("position")]));
    r.register(sym(
        "Timeout",
        SymbolCategory::Condition,
        Some(TypeSpec::Bool),
        vec![ParamSpec::required("duration", TypeSpec::Duration)],
        vec![],
    ));
    r
}

fn num(x: f64) -> DataExpr {
    DataExpr::Literal(Value::Number(FloatBits(x.to_bits())))
}

fn call(name: &str, args: Vec<(&str, DataExpr)>) -> CallExpr {
    CallExpr {
        name: SymbolRef::new(name),
        args: args.into_iter().map(|(n, v)| NamedArg { name: n.to_string(), value: v }).collect(),
    }
}

fn exec(name: &str, args: Vec<(&str, DataExpr)>) -> ExecutorItem {
    ExecutorItem::Executor(ExecutorCall {
        executor: SymbolRef::new(name),
        args: args.into_iter().map(|(n, v)| (n.to_string(), v)).collect(),
    })
}

fn var(name: &str, var_type: VarType) -> VarDecl {
    VarDecl { name: name.to_string(), var_type }
}

fn strategy(vars: Vec<VarDecl>, buy: Vec<Statement>, sell: Vec<Statement>, sell_finally: Vec<ExecutorItem>) -> Strategy {
    Strategy {
        name: "s".to_string(),
        metadata: StrategyMeta { version: "6.0".to_string(), description: None },
        vars: VarsBlock { vars },
        monitor: MonitorBlock {
            monitor_call: call("PriceAbove", vec![("price", num(1.0))]),
            on_trigger: TriggerBody { buy, buy_else: vec![], sell, sell_finally },
        },
    }
}

fn run(s: &Strategy) -> Result<(), CheckError> {
    Checker::new(registry()).check(s)
}

#[test]
fn a_well_formed_strategy_passes() {
    let s = strategy(
        vec![var("entry", VarType::Price), var("size", VarType::Amount)],
        vec![
            Statement::LetDestructure {
                targets: vec![Some("entry".to_string()), Some("size".to_string())],
                value: DataExpr::Call(call("Buy", vec![("amount", num(0.5))])),
            },
        ],
        vec![
            Statement::ConditionExec {
                condition: Condition::Compare {
                    left: DataExpr::Var("PumpPrice".to_string()),
                    op: CompareOp::Gt,
                    right: DataExpr::BinOp {
                        left: Box::new(DataExpr::Var("entry".to_string())),
                        op: BinOp::Mul,
                        right: Box::new(num(2.0)),
                    },
                },
                executors: vec![exec("Sell", vec![]), exec("Done", vec![])],
            },
        ],
        vec![exec("Sell", vec![])],
    );
    assert_eq!(run(&s), Ok(()));
}

#[test]
fn undefined_monitor() {
    let mut s = strategy(vec![], vec![], vec![], vec![]);
    s.monitor.monitor_call = call("NoSuchMonitor", vec![]);
    assert_eq!(
        run(&s),
        Err(CheckError::UndefinedSymbol { name: "NoSuchMonitor".to_string(), category: SymbolCategory::Monitor })
    );
}

#[test]
fn missing_required_parameter() {
    let mut s = strategy(vec![], vec![], vec![], vec![]);
    s.monitor.monitor_call = call("PriceAbove", vec![]);
    assert_eq!(
        run(&s),
        Err(CheckError::MissingRequiredParam { executor: "PriceAbove".to_string(), param: "price".to_string() })
    );
    let s = strategy(vec![], vec![], vec![], vec![exec("Buy", vec![])]);
    assert_eq!(
        run(&s),
        Err(CheckError::MissingRequiredParam { executor: "Buy".to_string(), param: "amount".to_string() })
    );
}

#[test]
fn assignment_to_an_undeclared_variable() {
    let s = strategy(vec![], vec![Statement::LetAssign { var_name: "x".to_string(), value: num(1.0) }], vec![], vec![]);
    assert_eq!(run(&s), Err(CheckError::UndeclaredVariable { name: "x".to_string() }));
}

#[test]
fn assignment_of_the_wrong_type() {
    let s = strategy(
        vec![var("d", VarType::Duration)],
        vec![Statement::LetAssign { var_name: "d".to_string(), value: DataExpr::Var("PumpPrice".to_string()) }],
        vec![],
        vec![],
    );
    assert_eq!(
        run(&s),
        Err(CheckError::VariableTypeMismatch {
            name: "d".to_string(),
            expected: TypeSpec::Duration,
            actual: TypeSpec::Price,
        })
    );
}

#[test]
fn destructuring_arity_and_single_values() {
    let s = strategy(
        vec![var("a", VarType::Price)],
        vec![Statement::LetDestructure {
            targets: vec![Some("a".to_string()), None, None],
            value: DataExpr::Var("Quote".to_string()),
        }],
        vec![],
        vec![],
    );
    let err = run(&s).unwrap_err();
    assert_eq!(err.to_string(), "Destructure expects 3 values, but expression returns 2");
    let s = strategy(
        vec![var("a", VarType::Price)],
        vec![Statement::LetDestructure {
            targets: vec![Some("a".to_string()), None],
            value: DataExpr::Var("PumpPrice".to_string()),
        }],
        vec![],
        vec![],
    );
    assert_eq!(
        run(&s),
        Err(CheckError::Custom(
            "Expression returns a single value (Price), cannot destructure into 2 targets".to_string()
        ))
    );
    // A value of type Any only needs declared targets.
    let s = strategy(
        vec![var("a", VarType::Price)],
        vec![Statement::LetDestructure {
            targets: vec![Some("a".to_string()), Some("b".to_string())],
            value: DataExpr::Literal(Value::Uninit),
        }],
        vec![],
        vec![],
    );
    assert_eq!(run(&s), Err(CheckError::UndeclaredVariable { name: "b".to_string() }));
}

#[test]
fn invalid_comparison_and_binary_operation() {
    let cmp = Condition::Compare {
        left: DataExpr::Var("PumpPrice".to_string()),
        op: CompareOp::Lt,
        right: DataExpr::Literal(Value::Duration(5)),
    };
    let s = strategy(vec![], vec![], vec![Statement::ConditionExec { condition: cmp, executors: vec![] }], vec![]);
    let err = run(&s).unwrap_err();
    assert_eq!(err, CheckError::InvalidCompare { left: TypeSpec::Price, right: TypeSpec::Duration });
    assert_eq!(err.to_string(), "Cannot compare Price with Duration");

    let sum = DataExpr::BinOp {
        left: Box::new(DataExpr::Var("PumpPrice".to_string())),
        op: BinOp::Add,
        right: Box::new(DataExpr::Literal(Value::Bool(true))),
    };
    let s = strategy(vec![var("p", VarType::Price)], vec![Statement::LetAssign { var_name: "p".to_string(), value: sum }], vec![], vec![]);
    let err = run(&s).unwrap_err();
    assert_eq!(
        err,
        CheckError::InvalidBinaryOp { left: TypeSpec::Price, op: "Add".to_string(), right: TypeSpec::Bool }
    );
    assert_eq!(err.to_string(), "Invalid binary operation: Price Add Bool");
}

#[test]
fn executor_argument_types() {
    let s = strategy(vec![], vec![], vec![], vec![exec("Buy", vec![("amount", DataExpr::Literal(Value::Bool(true)))])]);
    let err = run(&s).unwrap_err();
    assert_eq!(
        err,
        CheckError::TypeMismatch {
            expected: TypeSpec::Amount,
            actual: TypeSpec::Bool,
            context: "executor Buy parameter amount".to_string(),
        }
    );
    assert_eq!(err.to_string(), "Type mismatch in executor Buy parameter amount: expected Amount, found Bool");
    // Extra arguments that no parameter declares are allowed.
    let s = strategy(vec![], vec![], vec![], vec![exec("Buy", vec![("amount", num(1.0)), ("memo", num(2.0))])]);
    assert_eq!(run(&s), Ok(()));
}

#[test]
fn data_items_without_a_value_type() {
    let s = strategy(vec![var("p", VarType::Price)], vec![Statement::LetAssign { var_name: "p".to_string(), value: DataExpr::Var("Nothing".to_string()) }], vec![], vec![]);
    assert_eq!(run(&s), Err(CheckError::Custom("DataItem 'Nothing' has no return type".to_string())));
    let s = strategy(vec![var("p", VarType::Price)], vec![Statement::LetAssign { var_name: "p".to_string(), value: DataExpr::Call(call("Sell", vec![])) }], vec![], vec![]);
    assert_eq!(run(&s), Err(CheckError::Custom("'Sell' has no return type".to_string())));
}

#[test]
fn undefined_symbols() {
    let s = strategy(vec![], vec![Statement::Executor { call: call("Nope", vec![]) }], vec![], vec![]);
    assert_eq!(run(&s), Err(CheckError::UndefinedSymbol { name: "Nope".to_string(), category: SymbolCategory::Executor }));
    // A data item may stand as a statement.
    let s = strategy(vec![], vec![Statement::Executor { call: call("PumpPrice", vec![]) }], vec![], vec![]);
    assert_eq!(run(&s), Ok(()));
    let c = Condition::Combinator { name: "Every".to_string(), conditions: vec![] };
    let s = strategy(vec![], vec![], vec![Statement::ConditionExec { condition: c, executors: vec![] }], vec![]);
    let err = run(&s).unwrap_err();
    assert_eq!(err.to_string(), "Undefined Condition symbol: 'Every'");
    let s = strategy(vec![], vec![], vec![], vec![ExecutorItem::LetAssign { var_name: "q".to_string(), value: DataExpr::Symbol(SymbolRef::new("Ghost")) }]);
    assert_eq!(run(&s), Err(CheckError::UndeclaredVariable { name: "q".to_string() }));
}

#[test]
fn consumed_context_is_gone() {
    let s = strategy(
        vec![var("p", VarType::Price)],
        vec![Statement::Executor { call: call("Sell", vec![]) }],
        vec![Statement::LetAssign { var_name: "p".to_string(), value: DataExpr::Var("PumpPrice".to_string()) }],
        vec![],
    );
    let err = run(&s).unwrap_err();
    assert_eq!(
        err,
        CheckError::ContextNotAvailable {
            protocol: "position".to_string(),
            symbol: "PumpPrice".to_string(),
            op: "Need".to_string(),
        }
    );
    assert_eq!(err.to_string(), "Implicit context 'position' not available when 'PumpPrice' tries to Need it");
}

#[test]
fn spawned_lists_do_not_change_the_flow() {
    // Consuming inside a spawned list leaves the context for the sell phase.
    let s = strategy(
        vec![],
        vec![Statement::Spawn { items: vec![exec("Sell", vec![])] }],
        vec![Statement::Executor { call: call("Sell", vec![]) }],
        vec![],
    );
    assert_eq!(run(&s), Ok(()));
    // Without the spawn, the second consumption fails.
    let s = strategy(
        vec![],
        vec![Statement::Executor { call: call("Sell", vec![]) }],
        vec![Statement::Executor { call: call("Sell", vec![]) }],
        vec![],
    );
    assert_eq!(
        run(&s),
        Err(CheckError::ContextNotAvailable {
            protocol: "position".to_string(),
            symbol: "Sell".to_string(),
            op: "Consume".to_string(),
        })
    );
}

#[test]
fn combinator_branches_start_from_the_same_contexts() {
    let branch = Condition::Sequence { items: vec![exec("Sell", vec![])] };
    let c = Condition::Combinator { name: "OneOf".to_string(), conditions: vec![branch.clone(), branch] };
    let s = strategy(vec![], vec![], vec![Statement::ConditionExec { condition: c, executors: vec![] }], vec![exec("Sell", vec![])]);
    assert_eq!(run(&s), Ok(()));
}

#[test]
fn producing_twice_is_refused() {
    let mut r = registry();
    r.register(sym("Open", SymbolCategory::Executor, None, vec![], vec![ContextInteraction::produce("position")]));
    let s = strategy(vec![], vec![Statement::Executor { call: call("Open", vec![]) }], vec![], vec![]);
    let err = Checker::new(r).check(&s).unwrap_err();
    assert_eq!(
        err,
        CheckError::ContextAlreadyProduced { protocol: "position".to_string(), symbol: "Open".to_string() }
    );
    assert_eq!(err.to_string(), "Implicit context 'position' already available when 'Open' tries to produce it again");
}

#[test]
fn let_bound_targets_must_be_declared() {
    let c = Condition::LetBound {
        targets: vec![Some("t".to_string())],
        inner: Box::new(Condition::Call(call("Timeout", vec![("duration", DataExpr::Literal(Value::Duration(15)))]))),
    };
    let s = strategy(vec![], vec![], vec![Statement::ConditionExec { condition: c.clone(), executors: vec![] }], vec![]);
    assert_eq!(run(&s), Err(CheckError::UndeclaredVariable { name: "t".to_string() }));
    let s = strategy(vec![var("t", VarType::Count)], vec![], vec![Statement::ConditionExec { condition: c, executors: vec![] }], vec![]);
    assert_eq!(run(&s), Ok(()));
}

#[test]
fn declarations_stay_and_the_last_one_wins() {
    let mut checker = Checker::new(registry());
    let vars = VarsBlock { vars: vec![var("x", VarType::Price), var("x", VarType::Count), var("y", VarType::Address)] };
    assert_eq!(checker.collect_var_types(&vars), Ok(()));
    assert_eq!(checker.var_types.get("x"), Some(&TypeSpec::Count));
    assert_eq!(checker.var_types.get("y"), Some(&TypeSpec::Address));
    assert!(!checker.var_types.contains_key("z"));
}

#[test]
fn literal_types_in_tuples_and_lists() {
    let value = DataExpr::Literal(Value::Tuple(vec![
        Value::Number(FloatBits(1.0f64.to_bits())),
        Value::List(vec![Value::Percent(FloatBits(5.0f64.to_bits()))]),
    ]));
    let s = strategy(
        vec![var("a", VarType::Price), var("b", VarType::Percent)],
        vec![Statement::LetDestructure { targets: vec![Some("a".to_string()), Some("b".to_string())], value }],
        vec![],
        vec![],
    );
    let err = run(&s).unwrap_err();
    assert_eq!(err.to_string(), "Variable 'b' type mismatch: expected Percent, found [Percent]");
}

#[test]
fn error_messages() {
    let cases = vec![
        (CheckError::UndeclaredVariable { name: "v".to_string() }, "Undeclared variable: 'v'"),
        (CheckError::UnknownParam { executor: "E".to_string(), param: "p".to_string() }, "Unknown parameter 'p' for executor 'E'"),
        (CheckError::MissingRequiredParam { executor: "E".to_string(), param: "p".to_string() }, "Missing required parameter 'p' for executor 'E'"),
        (CheckError::ContextAlreadyConsumed { protocol: "c".to_string(), symbol: "S".to_string() }, "Implicit context 'c' already consumed when 'S' tries to use it"),
        (CheckError::Custom("free text".to_string()), "free text"),
        (CheckError::UndefinedSymbol { name: "D".to_string(), category: SymbolCategory::DataItem }, "Undefined DataItem symbol: 'D'"),
    ];
    for (e, text) in cases {
        assert_eq!(e.to_string(), text);
    }
}

#[test]
fn checking_twice_gives_the_same_verdict() {
    let ok = strategy(vec![var("p", VarType::Price)], vec![Statement::LetAssign { var_name: "p".to_string(), value: num(3.0) }], vec![], vec![]);
    let bad = strategy(vec![var("p", VarType::Price)], vec![Statement::LetAssign { var_name: "q".to_string(), value: num(3.0) }], vec![], vec![]);
    let mut checker = Checker::new(registry());
    assert_eq!(checker.check(&ok), Ok(()));
    assert_eq!(checker.check(&ok), Ok(()));
    let mut checker = Checker::new(registry());
    let first = checker.check(&bad);
    assert_eq!(checker.check(&bad), first);
    assert!(checker.var_types.contains_key("p"));
}

#[test]
fn buy_else_statements_are_checked() {
    let mut s = strategy(vec![], vec![], vec![], vec![]);
    s.monitor.on_trigger.buy_else =
        vec![Statement::LetAssign { var_name: "v".to_string(), value: num(1.0) }];
    assert_eq!(run(&s), Err(CheckError::UndeclaredVariable { name: "v".to_string() }));

    let mut s = strategy(vec![var("v", VarType::Number)], vec![], vec![], vec![]);
    s.monitor.on_trigger.buy_else =
        vec![Statement::LetAssign { var_name: "v".to_string(), value: num(1.0) }];
    assert_eq!(run(&s), Ok(()));
}

#[test]
fn buy_else_runs_on_its_own_copy_of_the_contexts() {
    // Consuming in the buy-else statements leaves the context for the sell
    // phase, which runs instead of them.
    let mut s = strategy(vec![], vec![], vec![Statement::Executor { call: call("Sell", vec![]) }], vec![]);
    s.monitor.on_trigger.buy_else = vec![Statement::Executor { call: call("Sell", vec![]) }];
    assert_eq!(run(&s), Ok(()));
    // A context that the buy statements consumed is gone for them too.
    let mut s = strategy(vec![], vec![Statement::Executor { call: call("Sell", vec![]) }], vec![], vec![]);
    s.monitor.on_trigger.buy_else = vec![Statement::Executor { call: call("Sell", vec![]) }];
    assert_eq!(
        run(&s),
        Err(CheckError::ContextNotAvailable {
            protocol: "position".to_string(),
            symbol: "Sell".to_string(),
            op: "Consume".to_string(),
        })
    );
}

#[test]
fn an_untyped_parameter_is_only_a_problem_where_an_argument_names_it() {
    let mut r = registry();
    r.register(sym(
        "Loose",
        SymbolCategory::Executor,
        None,
        vec![ParamSpec::required_multi("x", vec![])],
        vec![],
    ));
    let s = strategy(
        vec![var("p", VarType::Price)],
        vec![Statement::LetAssign { var_name: "p".to_string(), value: num(1.0) }],
        vec![],
        vec![],
    );
    assert_eq!(Checker::new(r).check(&s), Ok(()));
}
