//! A domain-independent checker for trading-strategy programs: the language's
//! syntax tree, its type system, a registry of symbols that a business domain
//! contributes, and a semantic checker that validates a strategy against that
//! registry (variable typing, symbol use, required parameters, and the flow of
//! implicit contexts through the program).

pub mod ast;
pub mod builtin_symbols;
pub mod checker;
pub mod error;
pub mod laws;
pub mod runtime_value;
pub mod symbol_table;
pub mod text;
pub mod types;

pub use ast::{
    BinOp, CallExpr, CompareOp, Condition, DataExpr, ExecutorCall, ExecutorItem, FloatBits,
    MonitorBlock, NamedArg, Operator, Statement, Strategy, StrategyMeta, SymbolRef, TriggerBody,
    Value, VarDecl, VarType, VarsBlock,
};
pub use builtin_symbols::builtin_symbol_registry;
pub use checker::{Checker, VarTable};
pub use error::{CheckError, CheckResult};
pub use runtime_value::RuntimeValue;
pub use symbol_table::{
    ContextInteraction, ContextOp, ParamSpec, SymbolCategory, SymbolMetadata, SymbolRegistry,
    TypeAliasDef, UnitDef,
};
pub use types::{TypeChecker, TypeSpec};
