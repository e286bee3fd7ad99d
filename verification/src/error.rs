//! The errors that the checker reports.

use vstd::prelude::*;
use crate::symbol_table::{category_text, SymbolCategory};
use crate::types::{ty_text, Ty, TypeSpec};

verus! {

/// An error found by the checker.
#[derive(Debug, Clone, PartialEq)]
pub enum CheckError {
    /// A symbol that is not registered in the category where it is used.
    UndefinedSymbol { name: String, category: SymbolCategory },
    /// An argument of the wrong type.
    TypeMismatch { expected: TypeSpec, actual: TypeSpec, context: String },
    /// A required parameter that a call does not give.
    MissingRequiredParam { executor: String, param: String },
    /// A parameter that the symbol does not declare.
    UnknownParam { executor: String, param: String },
    /// A binary operator on operand types that it does not apply to.
    InvalidBinaryOp { left: TypeSpec, op: String, right: TypeSpec },
    /// A comparison between types that cannot be compared.
    InvalidCompare { left: TypeSpec, right: TypeSpec },
    /// A variable that is not declared.
    UndeclaredVariable { name: String },
    /// A value whose type does not fit the variable it is assigned to.
    VariableTypeMismatch { name: String, expected: TypeSpec, actual: TypeSpec },
    /// An implicit context that is not available where a symbol needs it.
    ContextNotAvailable { protocol: String, symbol: String, op: String },
    /// An implicit context that was consumed before a symbol uses it.
    ContextAlreadyConsumed { protocol: String, symbol: String },
    /// An implicit context that a symbol produces while it is available.
    ContextAlreadyProduced { protocol: String, symbol: String },
    /// Any other error, with its message.
    Custom(String),
}

/// The mathematical model of a [`CheckError`]: its strings as character
/// sequences and its types as models.
pub enum ErrorView {
    UndefinedSymbol { name: Seq<char>, category: SymbolCategory },
    TypeMismatch { expected: Ty, actual: Ty, context: Seq<char> },
    MissingRequiredParam { executor: Seq<char>, param: Seq<char> },
    UnknownParam { executor: Seq<char>, param: Seq<char> },
    InvalidBinaryOp { left: Ty, op: Seq<char>, right: Ty },
    InvalidCompare { left: Ty, right: Ty },
    UndeclaredVariable { name: Seq<char> },
    VariableTypeMismatch { name: Seq<char>, expected: Ty, actual: Ty },
    ContextNotAvailable { protocol: Seq<char>, symbol: Seq<char>, op: Seq<char> },
    ContextAlreadyConsumed { protocol: Seq<char>, symbol: Seq<char> },
    ContextAlreadyProduced { protocol: Seq<char>, symbol: Seq<char> },
    Custom(Seq<char>),
}

impl View for CheckError {
    type V = ErrorView;

    open spec fn view(&self) -> ErrorView {
        match self {
            CheckError::UndefinedSymbol { name, category } => ErrorView::UndefinedSymbol {
                name: name@,
                category: *category,
            },
            CheckError::TypeMismatch { expected, actual, context } => ErrorView::TypeMismatch {
                expected: expected@,
                actual: actual@,
                context: context@,
            },
            CheckError::MissingRequiredParam { executor, param } => ErrorView::MissingRequiredParam {
                executor: executor@,
                param: param@,
            },
            CheckError::UnknownParam { executor, param } => ErrorView::UnknownParam {
                executor: executor@,
                param: param@,
            },
            CheckError::InvalidBinaryOp { left, op, right } => ErrorView::InvalidBinaryOp {
                left: left@,
                op: op@,
                right: right@,
            },
            CheckError::InvalidCompare { left, right } => ErrorView::InvalidCompare {
                left: left@,
                right: right@,
            },
            CheckError::UndeclaredVariable { name } => ErrorView::UndeclaredVariable { name: name@ },
            CheckError::VariableTypeMismatch { name, expected, actual } => ErrorView::VariableTypeMismatch {
                name: name@,
                expected: expected@,
                actual: actual@,
            },
            CheckError::ContextNotAvailable { protocol, symbol, op } => ErrorView::ContextNotAvailable {
                protocol: protocol@,
                symbol: symbol@,
                op: op@,
            },
            CheckError::ContextAlreadyConsumed { protocol, symbol } => ErrorView::ContextAlreadyConsumed {
                protocol: protocol@,
                symbol: symbol@,
            },
            CheckError::ContextAlreadyProduced { protocol, symbol } => ErrorView::ContextAlreadyProduced {
                protocol: protocol@,
                symbol: symbol@,
            },
            CheckError::Custom(msg) => ErrorView::Custom(msg@),
        }
    }
}

/// The model of a checking result.
pub open spec fn result_view<T>(r: Result<T, CheckError>) -> Result<T, ErrorView> {
    match r {
        Ok(v) => Ok(v),
        Err(e) => Err(e@),
    }
}

/// The model of a result that carries a type.
pub open spec fn ty_result_view(r: Result<TypeSpec, CheckError>) -> Result<Ty, ErrorView> {
    match r {
        Ok(t) => Ok(t@),
        Err(e) => Err(e@),
    }
}

/// The message of an error.
pub open spec fn error_text(e: ErrorView) -> Seq<char> {
    match e {
        ErrorView::UndefinedSymbol { name, category } => "Undefined "@ + category_text(category)
            + " symbol: '"@ + name + "'"@,
        ErrorView::TypeMismatch { expected, actual, context } => "Type mismatch in "@ + context
            + ": expected "@ + ty_text(expected) + ", found "@ + ty_text(actual),
        ErrorView::MissingRequiredParam { executor, param } => "Missing required parameter '"@
            + param + "' for executor '"@ + executor + "'"@,
        ErrorView::UnknownParam { executor, param } => "Unknown parameter '"@ + param
            + "' for executor '"@ + executor + "'"@,
        ErrorView::InvalidBinaryOp { left, op, right } => "Invalid binary operation: "@
            + ty_text(left) + " "@ + op + " "@ + ty_text(right),
        ErrorView::InvalidCompare { left, right } => "Cannot compare "@ + ty_text(left)
            + " with "@ + ty_text(right),
        ErrorView::UndeclaredVariable { name } => "Undeclared variable: '"@ + name + "'"@,
        ErrorView::VariableTypeMismatch { name, expected, actual } => "Variable '"@ + name
            + "' type mismatch: expected "@ + ty_text(expected) + ", found "@ + ty_text(actual),
        ErrorView::ContextNotAvailable { protocol, symbol, op } => "Implicit context '"@
            + protocol + "' not available when '"@ + symbol + "' tries to "@ + op + " it"@,
        ErrorView::ContextAlreadyConsumed { protocol, symbol } => "Implicit context '"@
            + protocol + "' already consumed when '"@ + symbol + "' tries to use it"@,
        ErrorView::ContextAlreadyProduced { protocol, symbol } => "Implicit context '"@
            + protocol + "' already available when '"@ + symbol
            + "' tries to produce it again"@,
        ErrorView::Custom(msg) => msg,
    }
}

impl CheckError {
    /// The error's message.
    pub fn to_string(&self) -> (r: String)
        ensures
            r@ == error_text(self@),
    {
        let mut out = String::new();
        match self {
            CheckError::UndefinedSymbol { name, category } => {
                out.append("Undefined ");
                let c = category.to_string();
                out.append(c.as_str());
                out.append(" symbol: '");
                out.append(name.as_str());
                out.append("'");
            },
            CheckError::TypeMismatch { expected, actual, context } => {
                out.append("Type mismatch in ");
                out.append(context.as_str());
                out.append(": expected ");
                expected.write_text(&mut out);
                out.append(", found ");
                actual.write_text(&mut out);
            },
            CheckError::MissingRequiredParam { executor, param } => {
                out.append("Missing required parameter '");
                out.append(param.as_str());
                out.append("' for executor '");
                out.append(executor.as_str());
                out.append("'");
            },
            CheckError::UnknownParam { executor, param } => {
                out.append("Unknown parameter '");
                out.append(param.as_str());
                out.append("' for executor '");
                out.append(executor.as_str());
                out.append("'");
            },
            CheckError::InvalidBinaryOp { left, op, right } => {
                out.append("Invalid binary operation: ");
                left.write_text(&mut out);
                out.append(" ");
                out.append(op.as_str());
                out.append(" ");
                right.write_text(&mut out);
            },
            CheckError::InvalidCompare { left, right } => {
                out.append("Cannot compare ");
                left.write_text(&mut out);
                out.append(" with ");
                right.write_text(&mut out);
            },
            CheckError::UndeclaredVariable { name } => {
                out.append("Undeclared variable: '");
                out.append(name.as_str());
                out.append("'");
            },
            CheckError::VariableTypeMismatch { name, expected, actual } => {
                out.append("Variable '");
                out.append(name.as_str());
                out.append("' type mismatch: expected ");
                expected.write_text(&mut out);
                out.append(", found ");
                actual.write_text(&mut out);
            },
            CheckError::ContextNotAvailable { protocol, symbol, op } => {
                out.append("Implicit context '");
                out.append(protocol.as_str());
                out.append("' not available when '");
                out.append(symbol.as_str());
                out.append("' tries to ");
                out.append(op.as_str());
                out.append(" it");
            },
            CheckError::ContextAlreadyConsumed { protocol, symbol } => {
                out.append("Implicit context '");
                out.append(protocol.as_str());
                out.append("' already consumed when '");
                out.append(symbol.as_str());
                out.append("' tries to use it");
            },
            CheckError::ContextAlreadyProduced { protocol, symbol } => {
                out.append("Implicit context '");
                out.append(protocol.as_str());
                out.append("' already available when '");
                out.append(symbol.as_str());
                out.append("' tries to produce it again");
            },
            CheckError::Custom(msg) => {
                out.append(msg.as_str());
            },
        }
        assert(out@ =~= error_text(self@));
        out
    }
}

/// The result of a check.
pub type CheckResult<T> = Result<T, CheckError>;

} // verus!
