use trade_meta_compiler::builtin_symbol_registry;
use trade_meta_compiler::symbol_table::{
    ContextInteraction, ContextOp, ParamSpec, SymbolCategory, SymbolMetadata, SymbolRegistry,
    TypeAliasDef, UnitDef,
};
use trade_meta_compiler::types::{BinOp, TypeChecker, TypeSpec};

fn meta(name: &'static str, category: SymbolCategory, returns: Option<TypeSpec>) -> SymbolMetadata {
    SymbolMetadata { name, returns, params: vec![], category, contexts: vec![] }
}

#[test]
fn compatibility_is_reflexive() {
    let types = vec![
        TypeSpec::Price,
        TypeSpec::Duration,
        TypeSpec::Condition,
        TypeSpec::Tuple(vec![TypeSpec::Price, TypeSpec::Count]),
        TypeSpec::List(Box::new(TypeSpec::Address)),
    ];
    for t in &types {
        assert!(TypeChecker::is_compatible(t, t));
        assert!(TypeChecker::check_compare_op(t, t));
    }
}

#[test]
fn any_is_compatible_both_ways() {
    for t in [TypeSpec::Duration, TypeSpec::String, TypeSpec::Tuple(vec![])] {
        assert!(TypeChecker::is_compatible(&TypeSpec::Any, &t));
        assert!(TypeChecker::is_compatible(&t, &TypeSpec::Any));
    }
}

#[test]
fn number_and_percent_conversions() {
    for t in [TypeSpec::Price, TypeSpec::Amount, TypeSpec::Percent, TypeSpec::Count] {
        assert!(TypeChecker::is_compatible(&t, &TypeSpec::Number));
    }
    assert!(!TypeChecker::is_compatible(&TypeSpec::Duration, &TypeSpec::Number));
    assert!(!TypeChecker::is_compatible(&TypeSpec::Number, &TypeSpec::Price));
    assert!(TypeChecker::is_compatible(&TypeSpec::Amount, &TypeSpec::Percent));
    assert!(!TypeChecker::is_compatible(&TypeSpec::Percent, &TypeSpec::Amount));
    assert!(TypeChecker::is_compatible(
        &TypeSpec::List(Box::new(TypeSpec::Price)),
        &TypeSpec::List(Box::new(TypeSpec::Number))
    ));
    assert!(!TypeChecker::is_compatible(
        &TypeSpec::Tuple(vec![TypeSpec::Price]),
        &TypeSpec::Tuple(vec![TypeSpec::Number])
    ));
}

#[test]
fn comparison_is_symmetric() {
    let pairs = [
        (TypeSpec::Price, TypeSpec::Number),
        (TypeSpec::Count, TypeSpec::Number),
        (TypeSpec::Duration, TypeSpec::Number),
        (TypeSpec::Price, TypeSpec::Amount),
    ];
    for (a, b) in &pairs {
        assert_eq!(TypeChecker::check_compare_op(a, b), TypeChecker::check_compare_op(b, a));
    }
    assert!(TypeChecker::check_compare_op(&TypeSpec::Number, &TypeSpec::Count));
    assert!(!TypeChecker::check_compare_op(&TypeSpec::Number, &TypeSpec::Duration));
}

#[test]
fn arithmetic_typing() {
    assert_eq!(
        TypeChecker::check_binary_op(&TypeSpec::Number, BinOp::Mul, &TypeSpec::Amount),
        Some(TypeSpec::Amount)
    );
    assert_eq!(
        TypeChecker::check_binary_op(&TypeSpec::Price, BinOp::Div, &TypeSpec::Price),
        Some(TypeSpec::Number)
    );
    assert_eq!(TypeChecker::check_binary_op(&TypeSpec::Price, BinOp::Div, &TypeSpec::Amount), None);
    assert_eq!(
        TypeChecker::check_binary_op(&TypeSpec::Duration, BinOp::Sub, &TypeSpec::Duration),
        Some(TypeSpec::Duration)
    );
    assert_eq!(
        TypeChecker::check_binary_op(&TypeSpec::Price, BinOp::Or, &TypeSpec::Number),
        Some(TypeSpec::Price)
    );
    assert_eq!(TypeChecker::check_binary_op(&TypeSpec::Price, BinOp::Or, &TypeSpec::Duration), None);
    for op in [BinOp::Add, BinOp::Sub, BinOp::Mul, BinOp::Div] {
        assert_eq!(
            TypeChecker::check_binary_op(&TypeSpec::Price, op, &TypeSpec::Number),
            TypeChecker::check_binary_op(&TypeSpec::Number, op, &TypeSpec::Price)
        );
    }
}

#[test]
fn type_texts() {
    assert_eq!(TypeSpec::Price.to_string(), "Price");
    assert_eq!(TypeSpec::List(Box::new(TypeSpec::Amount)).to_string(), "[Amount]");
    assert_eq!(
        TypeSpec::Tuple(vec![TypeSpec::Price, TypeSpec::List(Box::new(TypeSpec::Count)), TypeSpec::Bool])
            .to_string(),
        "(Price, [Count], Bool)"
    );
    assert_eq!(TypeSpec::Tuple(vec![]).to_string(), "()");
}

#[test]
fn type_clone_and_equality() {
    let t = TypeSpec::Tuple(vec![TypeSpec::Price, TypeSpec::List(Box::new(TypeSpec::Any))]);
    assert_eq!(t.clone(), t);
    assert_ne!(t, TypeSpec::Tuple(vec![TypeSpec::Price]));
    assert!(t.same_type(&t.clone()));
}

#[test]
fn register_then_lookup() {
    let mut r = SymbolRegistry::new();
    assert!(r.lookup("Price", SymbolCategory::DataItem).is_none());
    r.register(meta("Price", SymbolCategory::DataItem, Some(TypeSpec::Price)));
    r.register(meta("Price", SymbolCategory::Executor, None));
    assert_eq!(r.lookup("Price", SymbolCategory::DataItem).unwrap().returns, Some(TypeSpec::Price));
    assert_eq!(r.lookup("Price", SymbolCategory::Executor).unwrap().returns, None);
    // A second registration under the same key replaces the first.
    r.register(meta("Price", SymbolCategory::DataItem, Some(TypeSpec::Amount)));
    assert_eq!(r.lookup("Price", SymbolCategory::DataItem).unwrap().returns, Some(TypeSpec::Amount));
    assert_eq!(r.all_symbols(SymbolCategory::DataItem).len(), 1);
    assert!(r.lookup("Price", SymbolCategory::Monitor).is_none());
}

#[test]
fn all_symbols_of_a_category() {
    let mut r = SymbolRegistry::default();
    r.register(meta("A", SymbolCategory::Condition, None));
    r.register(meta("B", SymbolCategory::Condition, None));
    r.register(meta("C", SymbolCategory::Executor, None));
    let mut names: Vec<&str> = r.all_symbols(SymbolCategory::Condition).iter().map(|m| m.name).collect();
    names.sort();
    assert_eq!(names, vec!["A", "B"]);
    assert!(r.all_symbols(SymbolCategory::Monitor).is_empty());
}

#[test]
fn merge_prefers_the_other_registry() {
    let mut a = SymbolRegistry::new();
    a.register(meta("X", SymbolCategory::DataItem, Some(TypeSpec::Price)));
    a.register(meta("Y", SymbolCategory::DataItem, Some(TypeSpec::Count)));
    let mut b = SymbolRegistry::new();
    b.register(meta("X", SymbolCategory::DataItem, Some(TypeSpec::Amount)));
    b.register(meta("Z", SymbolCategory::Executor, None));
    a.merge(b);
    assert_eq!(a.lookup("X", SymbolCategory::DataItem).unwrap().returns, Some(TypeSpec::Amount));
    assert_eq!(a.lookup("Y", SymbolCategory::DataItem).unwrap().returns, Some(TypeSpec::Count));
    assert!(a.lookup("Z", SymbolCategory::Executor).is_some());
}

#[test]
fn registry_clone_keeps_symbols() {
    let mut a = SymbolRegistry::new();
    a.register(meta("X", SymbolCategory::DataItem, Some(TypeSpec::Price)));
    let b = a.clone();
    assert_eq!(b.lookup("X", SymbolCategory::DataItem).unwrap().returns, Some(TypeSpec::Price));
}

#[test]
fn builtin_symbols_are_registered() {
    let r = builtin_symbol_registry();
    let done = r.lookup("Done", SymbolCategory::Executor).unwrap();
    assert!(done.params.is_empty() && done.returns.is_none());
    let spawn = r.lookup("Spawn", SymbolCategory::Executor).unwrap();
    assert_eq!(spawn.params, vec![ParamSpec::optional("task", TypeSpec::Any)]);
    assert!(r.lookup("All", SymbolCategory::Condition).is_some());
    assert!(r.lookup("OneOf", SymbolCategory::Condition).is_some());
    assert!(r.lookup("All", SymbolCategory::Executor).is_none());
    assert_eq!(r.all_symbols(SymbolCategory::Executor).len(), 2);
    assert_eq!(r.all_symbols(SymbolCategory::Condition).len(), 2);
    assert_eq!(r.all_symbols(SymbolCategory::DataItem).len(), 0);
}

#[test]
fn param_constructors_and_acceptance() {
    let p = ParamSpec::required("amount", TypeSpec::Amount);
    assert!(p.required && p.name == "amount" && p.allowed_types == vec![TypeSpec::Amount]);
    assert!(p.accepts_type(&TypeSpec::Number));
    assert!(p.accepts_type(&TypeSpec::Percent));
    assert!(!p.accepts_type(&TypeSpec::Duration));
    let q = ParamSpec::optional_multi("slippage", vec![TypeSpec::Percent, TypeSpec::Duration]);
    assert!(!q.required);
    assert!(q.accepts_type(&TypeSpec::Duration));
    assert!(!q.accepts_type(&TypeSpec::Bool));
    let r = ParamSpec::required_multi("x", vec![]);
    assert!(r.required && !r.accepts_type(&TypeSpec::Any));
    let o = ParamSpec::optional("y", TypeSpec::Bool);
    assert!(!o.required && o.accepts_type(&TypeSpec::Bool));
}

#[test]
fn context_interactions_and_names() {
    assert_eq!(ContextInteraction::produce("pos").op, ContextOp::Produce);
    assert_eq!(ContextInteraction::need("pos").op, ContextOp::Need);
    let c = ContextInteraction::consume("pos");
    assert_eq!((c.protocol, c.op), ("pos", ContextOp::Consume));
    assert_eq!(ContextOp::Produce.to_string(), "Produce");
    assert_eq!(ContextOp::Need.to_string(), "Need");
    assert_eq!(ContextOp::Consume.to_string(), "Consume");
    assert_eq!(SymbolCategory::DataItem.to_string(), "DataItem");
    assert_eq!(SymbolCategory::Executor.to_string(), "Executor");
    assert_eq!(SymbolCategory::Monitor.to_string(), "Monitor");
    assert_eq!(SymbolCategory::Condition.to_string(), "Condition");
}

#[test]
fn unit_and_alias_lookup() {
    let units = vec![
        UnitDef { name: "SOL", base_type: TypeSpec::Amount },
        UnitDef { name: "USDC", base_type: TypeSpec::Amount },
        UnitDef { name: "SOL", base_type: TypeSpec::Number },
    ];
    assert_eq!(UnitDef::lookup(&units, "SOL").unwrap().base_type, TypeSpec::Amount);
    assert_eq!(UnitDef::lookup(&units, "USDC").unwrap().name, "USDC");
    assert!(UnitDef::lookup(&units, "BTC").is_none());
    let defs = vec![
        TypeAliasDef { name: "Slippage", types: vec![TypeSpec::Percent, TypeSpec::Number] },
        TypeAliasDef { name: "Size", types: vec![TypeSpec::Amount] },
    ];
    assert_eq!(TypeAliasDef::lookup(defs, "Size"), Some(vec![TypeSpec::Amount]));
    let defs = vec![TypeAliasDef { name: "Slippage", types: vec![TypeSpec::Percent] }];
    assert_eq!(TypeAliasDef::lookup(defs, "Other"), None);
}
