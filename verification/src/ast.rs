//! The syntax tree of the strategy language (independent of any business
//! domain).

use vstd::prelude::*;

verus! {

/// The IEEE-754 binary64 bit pattern of a floating-point number, as the
/// syntax tree and runtime values hold numbers (the checker never reads them).
#[derive(Debug, Clone, Copy, PartialEq, Eq, Hash)]
pub struct FloatBits(pub u64);

/// A reference to a symbol.
#[derive(Debug, PartialEq, Eq, Hash)]
pub struct SymbolRef {
    /// The symbol's name.
    pub name: String,
    /// Its namespace, where several business domains share a program.
    pub namespace: Option<String>,
}

impl Clone for SymbolRef {
    fn clone(&self) -> (r: Self)
        ensures
            r == *self,
    {
        let namespace = match &self.namespace {
            Some(ns) => Some(ns.clone()),
            None => None,
        };
        SymbolRef { name: self.name.clone(), namespace }
    }
}

impl SymbolRef {
    /// A reference without a namespace.
    pub fn new(name: &str) -> (r: Self)
        ensures
            r.name@ == name@,
            r.namespace is None,
    {
        SymbolRef { name: name.to_owned(), namespace: None }
    }

    /// A reference within a namespace.
    pub fn with_namespace(name: &str, namespace: &str) -> (r: Self)
        ensures
            r.name@ == name@,
            r.namespace matches Some(ns) && ns@ == namespace@,
    {
        SymbolRef { name: name.to_owned(), namespace: Some(namespace.to_owned()) }
    }

    /// The full name: `namespace::name`, or the bare name without a
    /// namespace.
    pub fn full_name(&self) -> (r: String)
        ensures
            r@ == match self.namespace {
                Some(ns) => ns@ + "::"@ + self.name@,
                None => self.name@,
            },
    {
        match &self.namespace {
            Some(ns) => {
                let mut out = ns.clone();
                out.append("::");
                out.append(self.name.as_str());
                out
            },
            None => self.name.clone(),
        }
    }
}

/// A whole strategy.
#[derive(Debug, Clone, PartialEq)]
pub struct Strategy {
    /// The strategy's name.
    pub name: String,
    /// Its metadata.
    pub metadata: StrategyMeta,
    /// Its variable declarations.
    pub vars: VarsBlock,
    /// Its monitor block.
    pub monitor: MonitorBlock,
}

/// The monitor block: the monitor call and the trading flow it triggers.
#[derive(Debug, Clone, PartialEq)]
pub struct MonitorBlock {
    /// The monitor (trigger) call.
    pub monitor_call: CallExpr,
    /// What runs once it fires (buy, sell, finally).
    pub on_trigger: TriggerBody,
}

/// The flow after a trigger: buy, then sell, then the finally block.
#[derive(Debug, Clone, PartialEq)]
pub struct TriggerBody {
    /// The buy statements.
    pub buy: Vec<Statement>,
    /// What runs when the buy is done without success (the sell phase is
    /// skipped then).
    pub buy_else: Vec<Statement>,
    /// The sell statements.
    pub sell: Vec<Statement>,
    /// Executors that run after the sell phase however it ended.
    pub sell_finally: Vec<ExecutorItem>,
}

impl MonitorBlock {
    /// A monitor block around a trigger body, with an unnamed monitor call
    /// without arguments.
    pub fn from_trigger_body(tb: TriggerBody) -> (r: MonitorBlock)
        ensures
            r.on_trigger == tb,
            r.monitor_call.name.name@ == ""@,
            r.monitor_call.name.namespace is None,
            r.monitor_call.args@.len() == 0,
    {
        MonitorBlock { monitor_call: CallExpr { name: SymbolRef::new(""), args: Vec::new() }, on_trigger: tb }
    }
}

/// A call with named arguments.
#[derive(Debug, PartialEq)]
pub struct CallExpr {
    /// The called symbol.
    pub name: SymbolRef,
    /// The named arguments, in order.
    pub args: Vec<NamedArg>,
}

/// A named argument.
#[derive(Debug, PartialEq)]
pub struct NamedArg {
    /// The argument's name.
    pub name: String,
    /// Its value.
    pub value: DataExpr,
}

/// A strategy's metadata.
#[derive(Debug, Clone, PartialEq)]
pub struct StrategyMeta {
    /// The language version.
    pub version: String,
    /// A description.
    pub description: Option<String>,
}

/// The variable declarations of a strategy.
#[derive(Debug, Clone, PartialEq)]
pub struct VarsBlock {
    /// The declarations, in order.
    pub vars: Vec<VarDecl>,
}

/// One variable declaration.
#[derive(Debug, Clone, PartialEq)]
pub struct VarDecl {
    /// The variable's name.
    pub name: String,
    /// Its type.
    pub var_type: VarType,
}

/// The type of a declared variable.
#[derive(Debug, Clone, Copy, PartialEq, Eq, Hash, Structural)]
pub enum VarType {
    Price,
    Amount,
    Duration,
    TimePoint,
    Percent,
    Count,
    Number,
    /// An on-chain address (a string inside).
    Address,
}

/// A statement.
#[derive(Debug, Clone, PartialEq)]
pub enum Statement {
    /// `let var = expr,` (the variable must be declared).
    LetAssign { var_name: String, value: DataExpr },
    /// `let (a, _, b) = expr,` (`None` stands for `_`).
    LetDestructure { targets: Vec<Option<String>>, value: DataExpr },
    /// An executor called without condition: `Symbol(...),`.
    Executor { call: CallExpr },
    /// `condition => [executors],`.
    ConditionExec { condition: Condition, executors: Vec<ExecutorItem> },
    /// `Spawn[items],`: items that run in the background.
    Spawn { items: Vec<ExecutorItem> },
}

/// A condition.
#[derive(Debug, PartialEq)]
pub enum Condition {
    /// A comparison.
    Compare { left: DataExpr, op: CompareOp, right: DataExpr },
    /// A condition symbol called like a function: `Timeout(duration: 15s)`.
    Call(CallExpr),
    /// A registered combinator over sub-conditions: `All[c1, c2]`,
    /// `OneOf[c1, c2]`.
    Combinator { name: String, conditions: Vec<Condition> },
    /// `Do[exec1, exec2]`: true once the items have run in order.
    Sequence { items: Vec<ExecutorItem> },
    /// `let x = Cond(...)`: binds the condition's values once it holds.
    LetBound { targets: Vec<Option<String>>, inner: Box<Condition> },
    /// The default condition `_`.
    Default,
}

/// A comparison operator.
#[derive(Debug, Clone, Copy, PartialEq, Eq, Structural)]
pub enum CompareOp {
    /// `==`
    Eq,
    /// `!=`
    Ne,
    /// `<`
    Lt,
    /// `<=`
    Le,
    /// `>`
    Gt,
    /// `>=`
    Ge,
}

/// A data expression.
#[derive(Debug, PartialEq)]
pub enum DataExpr {
    /// A variable (or a data symbol named without parentheses).
    Var(String),
    /// A literal.
    Literal(Value),
    /// A symbol reference.
    Symbol(SymbolRef),
    /// A binary operation.
    BinOp { left: Box<DataExpr>, op: BinOp, right: Box<DataExpr> },
    /// A call.
    Call(CallExpr),
    /// A tuple: `(e1, e2, ...)`.
    Tuple(Vec<DataExpr>),
}

/// A binary operator of expressions.
#[derive(Debug, Clone, Copy, PartialEq, Eq, Structural)]
pub enum BinOp {
    /// `+`
    Add,
    /// `-`
    Sub,
    /// `*`
    Mul,
    /// `/`
    Div,
    /// `OR`: the left value, or the right one where the left is
    /// uninitialised.
    Or,
}

/// The name of an expression operator, as the checker's messages print it.
pub open spec fn binop_text(op: BinOp) -> Seq<char> {
    match op {
        BinOp::Add => "Add"@,
        BinOp::Sub => "Sub"@,
        BinOp::Mul => "Mul"@,
        BinOp::Div => "Div"@,
        BinOp::Or => "Or"@,
    }
}

impl BinOp {
    /// The operator's name: `Add`, `Sub`, `Mul`, `Div` or `Or`.
    pub fn name(&self) -> (r: &'static str)
        ensures
            r@ == binop_text(*self),
    {
        match self {
            BinOp::Add => "Add",
            BinOp::Sub => "Sub",
            BinOp::Mul => "Mul",
            BinOp::Div => "Div",
            BinOp::Or => "Or",
        }
    }
}

/// An item of an executor list `[...]`.
#[derive(Debug, PartialEq)]
pub enum ExecutorItem {
    /// An executor call (`Done` is a registered executor without
    /// parameters).
    Executor(ExecutorCall),
    /// `let var = expr` inside the list.
    LetAssign { var_name: String, value: DataExpr },
    /// `let (a, b) = expr` inside the list.
    LetDestructure { targets: Vec<Option<String>>, value: DataExpr },
    /// `condition => [items]` inside the list.
    CondExec { condition: Condition, executors: Vec<ExecutorItem> },
}

/// An operator: a list of executor items.
#[derive(Debug, Clone, PartialEq)]
pub struct Operator {
    /// The items: `[Executor1, Executor2, Done]`.
    pub items: Vec<ExecutorItem>,
}

/// An executor call in an executor list.
#[derive(Debug, PartialEq)]
pub struct ExecutorCall {
    /// The executor.
    pub executor: SymbolRef,
    /// The arguments by name, in order. Names are meant to be distinct;
    /// where one repeats, the checker checks each occurrence.
    pub args: Vec<(String, DataExpr)>,
}

/// A literal value.
#[derive(Debug, PartialEq)]
pub enum Value {
    /// A number.
    Number(FloatBits),
    /// A string.
    String(String),
    /// A boolean.
    Bool(bool),
    /// A percentage.
    Percent(FloatBits),
    /// A length of time in milliseconds.
    Duration(u64),
    /// A quantity with its unit (`0.5 SOL`, `100 USDC`).
    Amount(FloatBits, String),
    /// A list.
    List(Vec<Value>),
    /// A map, by key in order (keys are meant to be distinct; nothing reads
    /// them).
    Mapping(Vec<(String, Value)>),
    /// A tuple.
    Tuple(Vec<Value>),
    /// Not initialised.
    Uninit,
}

impl Value {
    /// The number held by a number, a percentage or an amount.
    pub fn as_number(&self) -> (r: Option<FloatBits>)
        ensures
            r == match self {
                Value::Number(n) => Some(*n),
                Value::Percent(p) => Some(*p),
                Value::Amount(n, _) => Some(*n),
                _ => None::<FloatBits>,
            },
    {
        match self {
            Value::Number(n) => Some(*n),
            Value::Percent(p) => Some(*p),
            Value::Amount(n, _) => Some(*n),
            _ => None,
        }
    }

    /// The text of a string value.
    pub fn as_string(&self) -> (r: Option<&str>)
        ensures
            match self {
                Value::String(s) => r matches Some(t) && t@ == s@,
                _ => r is None,
            },
    {
        match self {
            Value::String(s) => Some(s.as_str()),
            _ => None,
        }
    }

    /// The truth value of a boolean value.
    pub fn as_bool(&self) -> (r: Option<bool>)
        ensures
            r == match self {
                Value::Bool(b) => Some(*b),
                _ => None::<bool>,
            },
    {
        match self {
            Value::Bool(b) => Some(*b),
            _ => None,
        }
    }
}

// ── Copies of recursive trees ────────────────────────────────────────────────

/// Whether `b` is a node-for-node copy of the value `a`: the same variant,
/// equal leaves, and children that are copies in the same order.
pub open spec fn same_value(a: Value, b: Value) -> bool
    decreases a,
{
    match (a, b) {
        (Value::Number(x), Value::Number(y)) => x == y,
        (Value::String(x), Value::String(y)) => x == y,
        (Value::Bool(x), Value::Bool(y)) => x == y,
        (Value::Percent(x), Value::Percent(y)) => x == y,
        (Value::Duration(x), Value::Duration(y)) => x == y,
        (Value::Amount(x, u), Value::Amount(y, w)) => x == y && u == w,
        (Value::List(x), Value::List(y)) => same_values(x@, y@),
        (Value::Mapping(x), Value::Mapping(y)) => same_value_entries(x@, y@),
        (Value::Tuple(x), Value::Tuple(y)) => same_values(x@, y@),
        (Value::Uninit, Value::Uninit) => true,
        _ => false,
    }
}

/// Whether `b` copies the values of `a` one by one, in order.
pub open spec fn same_values(a: Seq<Value>, b: Seq<Value>) -> bool
    decreases a,
{
    a.len() == b.len() && (a.len() == 0 || (same_values(a.drop_last(), b.drop_last()) && same_value(
        a.last(),
        b.last(),
    )))
}

/// Whether `b` copies the keyed values of `a` one by one, in order, with
/// equal keys.
pub open spec fn same_value_entries(a: Seq<(String, Value)>, b: Seq<(String, Value)>) -> bool
    decreases a,
{
    a.len() == b.len() && (a.len() == 0 || (same_value_entries(a.drop_last(), b.drop_last())
        && a.last().0 == b.last().0 && same_value(a.last().1, b.last().1)))
}

/// Whether `b` is a node-for-node copy of the expression `a`.
pub open spec fn same_expr(a: DataExpr, b: DataExpr) -> bool
    decreases a,
{
    match (a, b) {
        (DataExpr::Var(x), DataExpr::Var(y)) => x == y,
        (DataExpr::Literal(x), DataExpr::Literal(y)) => same_value(x, y),
        (DataExpr::Symbol(x), DataExpr::Symbol(y)) => x == y,
        (DataExpr::BinOp { left: l1, op: o1, right: r1 }, DataExpr::BinOp { left: l2, op: o2, right: r2 }) =>
            same_expr(*l1, *l2) && o1 == o2 && same_expr(*r1, *r2),
        (DataExpr::Call(x), DataExpr::Call(y)) => same_call(x, y),
        (DataExpr::Tuple(x), DataExpr::Tuple(y)) => same_exprs(x@, y@),
        _ => false,
    }
}

/// Whether `b` copies the expressions of `a` one by one, in order.
pub open spec fn same_exprs(a: Seq<DataExpr>, b: Seq<DataExpr>) -> bool
    decreases a,
{
    a.len() == b.len() && (a.len() == 0 || (same_exprs(a.drop_last(), b.drop_last()) && same_expr(
        a.last(),
        b.last(),
    )))
}

/// Whether `b` is a copy of the call `a`: the same symbol and copies of its
/// arguments.
pub open spec fn same_call(a: CallExpr, b: CallExpr) -> bool
    decreases a,
{
    a.name == b.name && same_named_args(a.args@, b.args@)
}

/// Whether `b` is a copy of the named argument `a`.
pub open spec fn same_named_arg(a: NamedArg, b: NamedArg) -> bool
    decreases a,
{
    a.name == b.name && same_expr(a.value, b.value)
}

/// Whether `b` copies the named arguments of `a` one by one, in order.
pub open spec fn same_named_args(a: Seq<NamedArg>, b: Seq<NamedArg>) -> bool
    decreases a,
{
    a.len() == b.len() && (a.len() == 0 || (same_named_args(a.drop_last(), b.drop_last())
        && same_named_arg(a.last(), b.last())))
}

/// Whether `b` copies the keyed arguments of `a` one by one, in order, with
/// equal keys.
pub open spec fn same_keyed_args(a: Seq<(String, DataExpr)>, b: Seq<(String, DataExpr)>) -> bool
    decreases a,
{
    a.len() == b.len() && (a.len() == 0 || (same_keyed_args(a.drop_last(), b.drop_last())
        && a.last().0 == b.last().0 && same_expr(a.last().1, b.last().1)))
}

/// Whether `b` is a copy of the executor call `a`.
pub open spec fn same_executor_call(a: ExecutorCall, b: ExecutorCall) -> bool {
    a.executor == b.executor && same_keyed_args(a.args@, b.args@)
}

/// Whether `b` is a node-for-node copy of the condition `a`.
pub open spec fn same_condition(a: Condition, b: Condition) -> bool
    decreases a,
{
    match (a, b) {
        (Condition::Compare { left: l1, op: o1, right: r1 }, Condition::Compare { left: l2, op: o2, right: r2 }) =>
            same_expr(l1, l2) && o1 == o2 && same_expr(r1, r2),
        (Condition::Call(x), Condition::Call(y)) => same_call(x, y),
        (Condition::Combinator { name: n1, conditions: c1 }, Condition::Combinator { name: n2, conditions: c2 }) =>
            n1 == n2 && same_conditions(c1@, c2@),
        (Condition::Sequence { items: x }, Condition::Sequence { items: y }) => same_items(x@, y@),
        (Condition::LetBound { targets: t1, inner: i1 }, Condition::LetBound { targets: t2, inner: i2 }) =>
            t1@ == t2@ && same_condition(*i1, *i2),
        (Condition::Default, Condition::Default) => true,
        _ => false,
    }
}

/// Whether `b` copies the conditions of `a` one by one, in order.
pub open spec fn same_conditions(a: Seq<Condition>, b: Seq<Condition>) -> bool
    decreases a,
{
    a.len() == b.len() && (a.len() == 0 || (same_conditions(a.drop_last(), b.drop_last())
        && same_condition(a.last(), b.last())))
}

/// Whether `b` is a node-for-node copy of the executor item `a`.
pub open spec fn same_item(a: ExecutorItem, b: ExecutorItem) -> bool
    decreases a,
{
    match (a, b) {
        (ExecutorItem::Executor(x), ExecutorItem::Executor(y)) => same_executor_call(x, y),
        (ExecutorItem::LetAssign { var_name: n1, value: v1 }, ExecutorItem::LetAssign { var_name: n2, value: v2 }) =>
            n1 == n2 && same_expr(v1, v2),
        (ExecutorItem::LetDestructure { targets: t1, value: v1 }, ExecutorItem::LetDestructure { targets: t2, value: v2 }) =>
            t1@ == t2@ && same_expr(v1, v2),
        (ExecutorItem::CondExec { condition: c1, executors: e1 }, ExecutorItem::CondExec { condition: c2, executors: e2 }) =>
            same_condition(c1, c2) && same_items(e1@, e2@),
        _ => false,
    }
}

/// Whether `b` copies the executor items of `a` one by one, in order.
pub open spec fn same_items(a: Seq<ExecutorItem>, b: Seq<ExecutorItem>) -> bool
    decreases a,
{
    a.len() == b.len() && (a.len() == 0 || (same_items(a.drop_last(), b.drop_last()) && same_item(
        a.last(),
        b.last(),
    )))
}


impl Clone for Value {
    fn clone(&self) -> (r: Self)
        ensures
            same_value(*self, r),
        decreases self,
    {
        match self {
            Value::Number(n) => Value::Number(*n),
            Value::String(s) => Value::String(s.clone()),
            Value::Bool(b) => Value::Bool(*b),
            Value::Percent(p) => Value::Percent(*p),
            Value::Duration(d) => Value::Duration(*d),
            Value::Amount(n, u) => Value::Amount(*n, u.clone()),
            Value::List(items) => Value::List(clone_values(items)),
            Value::Mapping(entries) => Value::Mapping(clone_value_entries(entries)),
            Value::Tuple(items) => Value::Tuple(clone_values(items)),
            Value::Uninit => Value::Uninit,
        }
    }
}

fn clone_values(items: &Vec<Value>) -> (r: Vec<Value>)
    ensures
        same_values(items@, r@),
    decreases items,
{
    let mut out: Vec<Value> = Vec::new();
    let mut i: usize = 0;
    while i < items.len()
        invariant
            i <= items@.len(),
            same_values(items@.take(i as int), out@),
        decreases items@.len() - i,
    {
        proof {
            assert(decreases_to!(*items => items[i as int]));
        }
        let c = items[i].clone();
        let ghost before = out@;
        out.push(c);
        proof {
            assert(out@.drop_last() =~= before);
            assert(items@.take(i + 1).drop_last() =~= items@.take(i as int));
        }
        i += 1;
    }
    assert(items@.take(items@.len() as int) =~= items@);
    out
}

fn clone_value_entries(entries: &Vec<(String, Value)>) -> (r: Vec<(String, Value)>)
    ensures
        same_value_entries(entries@, r@),
    decreases entries,
{
    let mut out: Vec<(String, Value)> = Vec::new();
    let mut i: usize = 0;
    while i < entries.len()
        invariant
            i <= entries@.len(),
            same_value_entries(entries@.take(i as int), out@),
        decreases entries@.len() - i,
    {
        proof {
            assert(decreases_to!(*entries => entries[i as int]));
            assert(decreases_to!(*entries => entries[i as int].1));
        }
        let c = (entries[i].0.clone(), entries[i].1.clone());
        let ghost before = out@;
        out.push(c);
        proof {
            assert(out@.drop_last() =~= before);
            assert(entries@.take(i + 1).drop_last() =~= entries@.take(i as int));
        }
        i += 1;
    }
    assert(entries@.take(entries@.len() as int) =~= entries@);
    out
}

impl Clone for DataExpr {
    fn clone(&self) -> (r: Self)
        ensures
            same_expr(*self, r),
        decreases self,
    {
        match self {
            DataExpr::Var(name) => DataExpr::Var(name.clone()),
            DataExpr::Literal(v) => DataExpr::Literal(v.clone()),
            DataExpr::Symbol(s) => DataExpr::Symbol(s.clone()),
            DataExpr::BinOp { left, op, right } => DataExpr::BinOp {
                left: Box::new((**left).clone()),
                op: *op,
                right: Box::new((**right).clone()),
            },
            DataExpr::Call(call) => DataExpr::Call(call.clone()),
            DataExpr::Tuple(items) => DataExpr::Tuple(clone_exprs(items)),
        }
    }
}

fn clone_exprs(items: &Vec<DataExpr>) -> (r: Vec<DataExpr>)
    ensures
        same_exprs(items@, r@),
    decreases items,
{
    let mut out: Vec<DataExpr> = Vec::new();
    let mut i: usize = 0;
    while i < items.len()
        invariant
            i <= items@.len(),
            same_exprs(items@.take(i as int), out@),
        decreases items@.len() - i,
    {
        proof {
            assert(decreases_to!(*items => items[i as int]));
        }
        let c = items[i].clone();
        let ghost before = out@;
        out.push(c);
        proof {
            assert(out@.drop_last() =~= before);
            assert(items@.take(i + 1).drop_last() =~= items@.take(i as int));
        }
        i += 1;
    }
    assert(items@.take(items@.len() as int) =~= items@);
    out
}

impl Clone for CallExpr {
    fn clone(&self) -> (r: Self)
        ensures
            same_call(*self, r),
        decreases self,
    {
        CallExpr { name: self.name.clone(), args: clone_named_args(&self.args) }
    }
}

fn clone_named_args(args: &Vec<NamedArg>) -> (r: Vec<NamedArg>)
    ensures
        same_named_args(args@, r@),
    decreases args,
{
    let mut out: Vec<NamedArg> = Vec::new();
    let mut i: usize = 0;
    while i < args.len()
        invariant
            i <= args@.len(),
            same_named_args(args@.take(i as int), out@),
        decreases args@.len() - i,
    {
        proof {
            assert(decreases_to!(*args => args[i as int]));
        }
        let c = args[i].clone();
        let ghost before = out@;
        out.push(c);
        proof {
            assert(out@.drop_last() =~= before);
            assert(args@.take(i + 1).drop_last() =~= args@.take(i as int));
        }
        i += 1;
    }
    assert(args@.take(args@.len() as int) =~= args@);
    out
}

impl Clone for NamedArg {
    fn clone(&self) -> (r: Self)
        ensures
            same_named_arg(*self, r),
        decreases self,
    {
        NamedArg { name: self.name.clone(), value: self.value.clone() }
    }
}

impl Clone for Condition {
    fn clone(&self) -> (r: Self)
        ensures
            same_condition(*self, r),
        decreases self,
    {
        match self {
            Condition::Compare { left, op, right } => Condition::Compare {
                left: left.clone(),
                op: *op,
                right: right.clone(),
            },
            Condition::Call(call) => Condition::Call(call.clone()),
            Condition::Combinator { name, conditions } => Condition::Combinator {
                name: name.clone(),
                conditions: clone_conditions(conditions),
            },
            Condition::Sequence { items } => Condition::Sequence { items: clone_items(items) },
            Condition::LetBound { targets, inner } => Condition::LetBound {
                targets: targets.clone(),
                inner: Box::new((**inner).clone()),
            },
            Condition::Default => Condition::Default,
        }
    }
}

fn clone_conditions(items: &Vec<Condition>) -> (r: Vec<Condition>)
    ensures
        same_conditions(items@, r@),
    decreases items,
{
    let mut out: Vec<Condition> = Vec::new();
    let mut i: usize = 0;
    while i < items.len()
        invariant
            i <= items@.len(),
            same_conditions(items@.take(i as int), out@),
        decreases items@.len() - i,
    {
        proof {
            assert(decreases_to!(*items => items[i as int]));
        }
        let c = items[i].clone();
        let ghost before = out@;
        out.push(c);
        proof {
            assert(out@.drop_last() =~= before);
            assert(items@.take(i + 1).drop_last() =~= items@.take(i as int));
        }
        i += 1;
    }
    assert(items@.take(items@.len() as int) =~= items@);
    out
}

fn clone_items(items: &Vec<ExecutorItem>) -> (r: Vec<ExecutorItem>)
    ensures
        same_items(items@, r@),
    decreases items,
{
    let mut out: Vec<ExecutorItem> = Vec::new();
    let mut i: usize = 0;
    while i < items.len()
        invariant
            i <= items@.len(),
            same_items(items@.take(i as int), out@),
        decreases items@.len() - i,
    {
        proof {
            assert(decreases_to!(*items => items[i as int]));
        }
        let c = items[i].clone();
        let ghost before = out@;
        out.push(c);
        proof {
            assert(out@.drop_last() =~= before);
            assert(items@.take(i + 1).drop_last() =~= items@.take(i as int));
        }
        i += 1;
    }
    assert(items@.take(items@.len() as int) =~= items@);
    out
}

impl Clone for ExecutorItem {
    fn clone(&self) -> (r: Self)
        ensures
            same_item(*self, r),
        decreases self,
    {
        match self {
            ExecutorItem::Executor(call) => ExecutorItem::Executor(call.clone()),
            ExecutorItem::LetAssign { var_name, value } => ExecutorItem::LetAssign {
                var_name: var_name.clone(),
                value: value.clone(),
            },
            ExecutorItem::LetDestructure { targets, value } => ExecutorItem::LetDestructure {
                targets: targets.clone(),
                value: value.clone(),
            },
            ExecutorItem::CondExec { condition, executors } => ExecutorItem::CondExec {
                condition: condition.clone(),
                executors: clone_items(executors),
            },
        }
    }
}

impl Clone for ExecutorCall {
    fn clone(&self) -> (r: Self)
        ensures
            same_executor_call(*self, r),
        decreases self,
    {
        let mut args: Vec<(String, DataExpr)> = Vec::new();
        let mut i: usize = 0;
        while i < self.args.len()
            invariant
                i <= self.args@.len(),
                same_keyed_args(self.args@.take(i as int), args@),
            decreases self.args@.len() - i,
        {
            let c = (self.args[i].0.clone(), self.args[i].1.clone());
            let ghost before = args@;
            args.push(c);
            proof {
                assert(args@.drop_last() =~= before);
                assert(self.args@.take(i + 1).drop_last() =~= self.args@.take(i as int));
            }
            i += 1;
        }
        assert(self.args@.take(self.args@.len() as int) =~= self.args@);
        ExecutorCall { executor: self.executor.clone(), args }
    }
}

} // verus!
