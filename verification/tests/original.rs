use trade_meta_compiler::checker::Checker;
use trade_meta_compiler::symbol_table::{SymbolCategory, SymbolMetadata, SymbolRegistry};
use trade_meta_compiler::types::{BinOp, TypeChecker, TypeSpec};
use trade_meta_compiler::{VarDecl, VarType, VarsBlock};

#[test]
fn test_checker_basic() {
    let mut registry = SymbolRegistry::new();

    registry.register(SymbolMetadata {
        name: "TestPrice",
        returns: Some(TypeSpec::Price),
        params: vec![],
        category: SymbolCategory::DataItem,
        contexts: vec![],
    });

    let mut checker = Checker::new(registry);

    let vars = VarsBlock {
        vars: vec![VarDecl {
            name: "my_var".to_string(),
            var_type: VarType::Price,
        }],
    };

    checker.collect_var_types(&vars).unwrap();
    assert_eq!(checker.var_types.get("my_var"), Some(&TypeSpec::Price));
}

#[test]
fn test_type_compatibility() {
    assert!(TypeChecker::is_compatible(&TypeSpec::Price, &TypeSpec::Price));
    assert!(TypeChecker::is_compatible(&TypeSpec::Any, &TypeSpec::Price));
    assert!(TypeChecker::is_compatible(&TypeSpec::Price, &TypeSpec::Number));
    assert!(!TypeChecker::is_compatible(&TypeSpec::Price, &TypeSpec::Duration));
}

#[test]
fn test_binary_op() {
    // Price * Number = Price
    assert_eq!(
        TypeChecker::check_binary_op(&TypeSpec::Price, BinOp::Mul, &TypeSpec::Number),
        Some(TypeSpec::Price)
    );

    // Price + Price = Price
    assert_eq!(
        TypeChecker::check_binary_op(&TypeSpec::Price, BinOp::Add, &TypeSpec::Price),
        Some(TypeSpec::Price)
    );

    // Price + Duration: no type
    assert_eq!(
        TypeChecker::check_binary_op(&TypeSpec::Price, BinOp::Add, &TypeSpec::Duration),
        None
    );
}

#[test]
fn test_compare_op() {
    assert!(TypeChecker::check_compare_op(&TypeSpec::Price, &TypeSpec::Price));
    assert!(TypeChecker::check_compare_op(&TypeSpec::Price, &TypeSpec::Number));
    assert!(!TypeChecker::check_compare_op(&TypeSpec::Price, &TypeSpec::Duration));
}
