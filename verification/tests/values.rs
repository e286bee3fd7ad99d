use trade_meta_compiler::ast::{
    BinOp, CallExpr, CompareOp, Condition, DataExpr, ExecutorCall, ExecutorItem, FloatBits, NamedArg,
};
use trade_meta_compiler::runtime_value::RuntimeValue;
use trade_meta_compiler::{MonitorBlock, SymbolRef, TriggerBody, TypeSpec, Value};

#[test]
fn symbol_ref_full_name() {
    assert_eq!(SymbolRef::new("Buy").full_name(), "Buy");
    let r = SymbolRef::with_namespace("Buy", "solana");
    assert_eq!(r.namespace.as_deref(), Some("solana"));
    assert_eq!(r.full_name(), "solana::Buy");
}

#[test]
fn value_accessors() {
    let half = FloatBits(0.5f64.to_bits());
    assert_eq!(Value::Number(half).as_number(), Some(half));
    assert_eq!(Value::Percent(half).as_number(), Some(half));
    assert_eq!(Value::Amount(half, "SOL".to_string()).as_number(), Some(half));
    assert_eq!(Value::Bool(true).as_number(), None);
    assert_eq!(Value::String("x".to_string()).as_string(), Some("x"));
    assert_eq!(Value::Uninit.as_string(), None);
    assert_eq!(Value::Bool(false).as_bool(), Some(false));
    assert_eq!(Value::Duration(15).as_bool(), None);
}

#[test]
fn monitor_block_from_trigger_body() {
    let tb = TriggerBody { buy: vec![], buy_else: vec![], sell: vec![], sell_finally: vec![] };
    let m = MonitorBlock::from_trigger_body(tb.clone());
    assert_eq!(m.monitor_call.name, SymbolRef::new(""));
    assert!(m.monitor_call.args.is_empty());
    assert_eq!(m.on_trigger, tb);
}

#[test]
fn runtime_value_types() {
    let one = FloatBits(1.0f64.to_bits());
    let v: RuntimeValue<()> = RuntimeValue::Tuple(vec![
        RuntimeValue::Price(one),
        RuntimeValue::List(vec![RuntimeValue::Str("a".to_string())]),
        RuntimeValue::List(vec![]),
        RuntimeValue::Task(()),
    ]);
    assert_eq!(
        v.type_spec(),
        TypeSpec::Tuple(vec![
            TypeSpec::Price,
            TypeSpec::List(Box::new(TypeSpec::String)),
            TypeSpec::List(Box::new(TypeSpec::Any)),
            TypeSpec::Any,
        ])
    );
    assert_eq!(v.clone().type_spec(), v.type_spec());
    assert_eq!(RuntimeValue::<()>::Amount(one, String::new()).type_spec(), TypeSpec::Amount);
    assert_eq!(RuntimeValue::<()>::Count(one).as_f64(), one);
    assert_eq!(RuntimeValue::<()>::Bool(true).as_f64(), FloatBits(0.0f64.to_bits()));
    assert!(RuntimeValue::<()>::default().is_uninit());
    assert!(!RuntimeValue::<()>::Unit.is_uninit());
}

#[test]
fn copies_of_nested_trees_are_equal() {
    let value = Value::Mapping(vec![
        ("a".to_string(), Value::List(vec![Value::Duration(5), Value::Uninit])),
        ("b".to_string(), Value::Tuple(vec![Value::Amount(FloatBits(1), "SOL".to_string())])),
    ]);
    assert_eq!(value.clone(), value);

    let call = CallExpr {
        name: SymbolRef::with_namespace("Price", "solana"),
        args: vec![NamedArg { name: "token".to_string(), value: DataExpr::Var("t".to_string()) }],
    };
    let expr = DataExpr::Tuple(vec![
        DataExpr::BinOp {
            left: Box::new(DataExpr::Literal(value)),
            op: BinOp::Or,
            right: Box::new(DataExpr::Call(call.clone())),
        },
        DataExpr::Symbol(SymbolRef::new("Now")),
    ]);
    assert_eq!(expr.clone(), expr);

    let item = ExecutorItem::CondExec {
        condition: Condition::Combinator {
            name: "All".to_string(),
            conditions: vec![
                Condition::Compare { left: expr, op: CompareOp::Le, right: DataExpr::Var("x".to_string()) },
                Condition::LetBound { targets: vec![Some("p".to_string()), None], inner: Box::new(Condition::Call(call)) },
            ],
        },
        executors: vec![
            ExecutorItem::Executor(ExecutorCall {
                executor: SymbolRef::new("Buy"),
                args: vec![("amount".to_string(), DataExpr::Var("a".to_string()))],
            }),
            ExecutorItem::LetDestructure { targets: vec![None], value: DataExpr::Var("v".to_string()) },
        ],
    };
    let seq = Condition::Sequence { items: vec![item] };
    assert_eq!(seq.clone(), seq);
}
