//! The symbol table: unit and type-alias definitions, parameter and context
//! declarations, symbol metadata, and the registry that the checker consults.

use vstd::prelude::*;
use crate::text::str_eq;
use crate::types::{opt_ty, spec_is_compatible, Ty, TypeChecker, TypeSpec};

verus! {

// ── Units ────────────────────────────────────────────────────────────────────

/// A unit that a business domain defines (such as `SOL`, `USDC`, `lamports`),
/// the suffix of an amount in the language.
pub struct UnitDef {
    /// The unit's name, as it stands after an amount.
    pub name: &'static str,
    /// The type of a value in this unit (usually `Amount`).
    pub base_type: TypeSpec,
}

impl UnitDef {
    /// The first of `units` with the given name, if any.
    pub fn lookup<'a>(units: &'a [UnitDef], name: &str) -> (r: Option<&'a UnitDef>)
        ensures
            match r {
                Some(u) => exists|i: int|
                    0 <= i < units@.len() && units@[i] == *u && #[trigger] units@[i].name@ == name@
                        && forall|j: int| 0 <= j < i ==> #[trigger] units@[j].name@ != name@,
                None => forall|i: int| 0 <= i < units@.len() ==> #[trigger] units@[i].name@ != name@,
            },
    {
        let mut i: usize = 0;
        while i < units.len()
            invariant
                i <= units@.len(),
                forall|j: int| 0 <= j < i ==> #[trigger] units@[j].name@ != name@,
            decreases units@.len() - i,
        {
            if str_eq(units[i].name, name) {
                return Some(&units[i]);
            }
            i += 1;
        }
        None
    }
}

// ── Type aliases ─────────────────────────────────────────────────────────────

/// A named type alias: a name that stands for a set of allowed types
/// (such as `Slippage` for a parameter that takes a percent or a number).
pub struct TypeAliasDef {
    /// The alias's name.
    pub name: &'static str,
    /// The types the alias allows.
    pub types: Vec<TypeSpec>,
}

impl TypeAliasDef {
    /// The allowed types of the first of `defs` with the given name, if any.
    pub fn lookup(defs: Vec<TypeAliasDef>, name: &str) -> (r: Option<Vec<TypeSpec>>)
        ensures
            match r {
                Some(types) => exists|i: int|
                    0 <= i < defs@.len() && defs@[i].types == types && #[trigger] defs@[i].name@
                        == name@ && forall|j: int| 0 <= j < i ==> #[trigger] defs@[j].name@ != name@,
                None => forall|i: int| 0 <= i < defs@.len() ==> #[trigger] defs@[i].name@ != name@,
            },
    {
        let ghost orig = defs@;
        let mut work = defs;
        let mut i: usize = 0;
        while i < work.len()
            invariant
                work@ == orig,
                defs@ == orig,
                i <= orig.len(),
                forall|j: int| 0 <= j < i ==> #[trigger] orig[j].name@ != name@,
            decreases orig.len() - i,
        {
            if str_eq(work[i].name, name) {
                let def = work.swap_remove(i);
                assert(orig[i as int].types == def.types && orig[i as int].name@ == name@);
                return Some(def.types);
            }
            i += 1;
        }
        None
    }
}

// ── Parameters ───────────────────────────────────────────────────────────────

/// The declaration of one parameter of a symbol.
#[derive(Debug, PartialEq)]
pub struct ParamSpec {
    /// The parameter's name.
    pub name: &'static str,
    /// The types the parameter accepts (one or several).
    pub allowed_types: Vec<TypeSpec>,
    /// Whether a call must give the parameter.
    pub required: bool,
}

/// Whether two sequences of types hold the same types, in order.
pub open spec fn same_types(a: Seq<TypeSpec>, b: Seq<TypeSpec>) -> bool {
    a.len() == b.len() && forall|i: int| 0 <= i < a.len() ==> (#[trigger] a[i])@ == b[i]@
}

/// Whether `b` declares the same parameter as `a`: the same name, the same
/// requirement and the same allowed types in order.
pub open spec fn same_param(a: ParamSpec, b: ParamSpec) -> bool {
    a.name == b.name && a.required == b.required && same_types(a.allowed_types@, b.allowed_types@)
}

/// A copy of a sequence of types.
fn clone_types(types: &Vec<TypeSpec>) -> (r: Vec<TypeSpec>)
    ensures
        same_types(types@, r@),
{
    let mut out: Vec<TypeSpec> = Vec::new();
    let mut i: usize = 0;
    while i < types.len()
        invariant
            i <= types@.len(),
            out@.len() == i,
            forall|j: int| 0 <= j < i ==> (#[trigger] types@[j])@ == out@[j]@,
        decreases types@.len() - i,
    {
        out.push(types[i].clone());
        i += 1;
    }
    out
}

impl Clone for ParamSpec {
    fn clone(&self) -> (r: Self)
        ensures
            same_param(*self, r),
    {
        ParamSpec { name: self.name, allowed_types: clone_types(&self.allowed_types), required: self.required }
    }
}

/// Whether some type of `allowed` accepts a value of type `ty`.
pub open spec fn spec_accepts(allowed: Seq<TypeSpec>, ty: Ty) -> bool {
    exists|i: int| 0 <= i < allowed.len() && spec_is_compatible(#[trigger] allowed[i]@, ty)
}

impl ParamSpec {
    /// A required parameter of one type.
    pub fn required(name: &'static str, ty: TypeSpec) -> (r: Self)
        ensures
            r.name == name,
            r.allowed_types@ == seq![ty],
            r.required,
    {
        ParamSpec { name, allowed_types: vec![ty], required: true }
    }

    /// A required parameter that accepts several types.
    pub fn required_multi(name: &'static str, types: Vec<TypeSpec>) -> (r: Self)
        ensures
            r.name == name,
            r.allowed_types == types,
            r.required,
    {
        ParamSpec { name, allowed_types: types, required: true }
    }

    /// An optional parameter of one type.
    pub fn optional(name: &'static str, ty: TypeSpec) -> (r: Self)
        ensures
            r.name == name,
            r.allowed_types@ == seq![ty],
            !r.required,
    {
        ParamSpec { name, allowed_types: vec![ty], required: false }
    }

    /// An optional parameter that accepts several types.
    pub fn optional_multi(name: &'static str, types: Vec<TypeSpec>) -> (r: Self)
        ensures
            r.name == name,
            r.allowed_types == types,
            !r.required,
    {
        ParamSpec { name, allowed_types: types, required: false }
    }

    /// Whether the parameter accepts a value of type `ty`: some allowed type
    /// is compatible with it (implicit conversions included).
    pub fn accepts_type(&self, ty: &TypeSpec) -> (r: bool)
        ensures
            r == spec_accepts(self.allowed_types@, ty@),
    {
        let mut i: usize = 0;
        while i < self.allowed_types.len()
            invariant
                i <= self.allowed_types@.len(),
                forall|j: int|
                    0 <= j < i ==> !spec_is_compatible(#[trigger] self.allowed_types@[j]@, ty@),
            decreases self.allowed_types@.len() - i,
        {
            if TypeChecker::is_compatible(&self.allowed_types[i], ty) {
                return true;
            }
            i += 1;
        }
        false
    }
}

// ── Implicit contexts ────────────────────────────────────────────────────────

/// What a symbol does with an implicit context.
#[derive(Debug, Clone, Copy, PartialEq, Eq, Hash, Structural)]
pub enum ContextOp {
    /// Produces a new instance of the context.
    Produce,
    /// Reads the context.
    Need,
    /// Uses the context up (it is gone afterwards).
    Consume,
}

/// The name of a context operation.
pub open spec fn op_text(op: ContextOp) -> Seq<char> {
    match op {
        ContextOp::Produce => "Produce"@,
        ContextOp::Need => "Need"@,
        ContextOp::Consume => "Consume"@,
    }
}

impl ContextOp {
    /// The operation's name: `Produce`, `Need` or `Consume`.
    pub fn to_string(&self) -> (r: String)
        ensures
            r@ == op_text(*self),
    {
        match self {
            ContextOp::Produce => "Produce".to_owned(),
            ContextOp::Need => "Need".to_owned(),
            ContextOp::Consume => "Consume".to_owned(),
        }
    }
}

/// A symbol's declared interaction with one implicit context.
#[derive(Debug, PartialEq)]
pub struct ContextInteraction {
    /// The context's protocol name.
    pub protocol: &'static str,
    /// What the symbol does with it.
    pub op: ContextOp,
}

impl Clone for ContextInteraction {
    fn clone(&self) -> (r: Self)
        ensures
            r == *self,
    {
        ContextInteraction { protocol: self.protocol, op: self.op }
    }
}

impl ContextInteraction {
    /// The symbol produces the context.
    pub fn produce(protocol: &'static str) -> (r: Self)
        ensures
            r.protocol == protocol,
            r.op == ContextOp::Produce,
    {
        ContextInteraction { protocol, op: ContextOp::Produce }
    }

    /// The symbol reads the context.
    pub fn need(protocol: &'static str) -> (r: Self)
        ensures
            r.protocol == protocol,
            r.op == ContextOp::Need,
    {
        ContextInteraction { protocol, op: ContextOp::Need }
    }

    /// The symbol consumes the context.
    pub fn consume(protocol: &'static str) -> (r: Self)
        ensures
            r.protocol == protocol,
            r.op == ContextOp::Consume,
    {
        ContextInteraction { protocol, op: ContextOp::Consume }
    }
}

// ── Symbols ──────────────────────────────────────────────────────────────────

/// The category of a symbol.
#[derive(Debug, Clone, Copy, PartialEq, Eq, Hash, Structural)]
pub enum SymbolCategory {
    /// A data item (it has a value).
    DataItem,
    /// An executor (it acts).
    Executor,
    /// A monitor, the trigger of a strategy.
    Monitor,
    /// A condition.
    Condition,
}

/// The name of a symbol category.
pub open spec fn category_text(c: SymbolCategory) -> Seq<char> {
    match c {
        SymbolCategory::DataItem => "DataItem"@,
        SymbolCategory::Executor => "Executor"@,
        SymbolCategory::Monitor => "Monitor"@,
        SymbolCategory::Condition => "Condition"@,
    }
}

impl SymbolCategory {
    /// The category's name: `DataItem`, `Executor`, `Monitor` or `Condition`.
    pub fn to_string(&self) -> (r: String)
        ensures
            r@ == category_text(*self),
    {
        match self {
            SymbolCategory::DataItem => "DataItem".to_owned(),
            SymbolCategory::Executor => "Executor".to_owned(),
            SymbolCategory::Monitor => "Monitor".to_owned(),
            SymbolCategory::Condition => "Condition".to_owned(),
        }
    }
}

/// The metadata of a registered symbol.
#[derive(Debug, PartialEq)]
pub struct SymbolMetadata {
    /// The symbol's name.
    pub name: &'static str,
    /// The type of its value (for data items, and calls that return one).
    pub returns: Option<TypeSpec>,
    /// Its parameters (for executors, monitors and conditions).
    pub params: Vec<ParamSpec>,
    /// Its category.
    pub category: SymbolCategory,
    /// Its interactions with implicit contexts (none: it needs no context).
    pub contexts: Vec<ContextInteraction>,
}

/// Whether `b` describes the same symbol as `a`: the same name, category,
/// value type, parameters and context interactions.
pub open spec fn same_metadata(a: SymbolMetadata, b: SymbolMetadata) -> bool {
    &&& a.name == b.name
    &&& a.category == b.category
    &&& opt_ty(a.returns) == opt_ty(b.returns)
    &&& a.params@.len() == b.params@.len()
    &&& forall|i: int| 0 <= i < a.params@.len() ==> same_param(#[trigger] a.params@[i], b.params@[i])
    &&& a.contexts@ == b.contexts@
}

impl Clone for SymbolMetadata {
    fn clone(&self) -> (r: Self)
        ensures
            same_metadata(*self, r),
    {
        let value_type = match &self.returns {
            Some(t) => Some(t.clone()),
            None => None,
        };
        let mut params: Vec<ParamSpec> = Vec::new();
        let mut i: usize = 0;
        while i < self.params.len()
            invariant
                i <= self.params@.len(),
                params@.len() == i,
                forall|j: int| 0 <= j < i ==> same_param(#[trigger] self.params@[j], params@[j]),
            decreases self.params@.len() - i,
        {
            params.push(self.params[i].clone());
            i += 1;
        }
        let mut contexts: Vec<ContextInteraction> = Vec::new();
        let mut k: usize = 0;
        while k < self.contexts.len()
            invariant
                k <= self.contexts@.len(),
                contexts@ == self.contexts@.take(k as int),
            decreases self.contexts@.len() - k,
        {
            contexts.push(self.contexts[k].clone());
            assert(self.contexts@.take(k + 1) =~= self.contexts@.take(k as int).push(self.contexts@[k as int]));
            k += 1;
        }
        assert(self.contexts@.take(k as int) =~= self.contexts@);
        SymbolMetadata { name: self.name, returns: value_type, params, category: self.category, contexts }
    }
}

/// The key under which a symbol is registered: its name and category.
pub open spec fn sym_key(m: SymbolMetadata) -> (Seq<char>, SymbolCategory) {
    (m.name@, m.category)
}

/// No two entries share a key.
pub open spec fn keys_distinct(s: Seq<SymbolMetadata>) -> bool {
    forall|i: int, j: int| 0 <= i < j < s.len() ==> sym_key(#[trigger] s[i]) != sym_key(#[trigger] s[j])
}

/// The map from key to metadata that a sequence of entries stands for (a
/// later entry overrides an earlier one with the same key).
pub open spec fn symbol_map(s: Seq<SymbolMetadata>) -> Map<(Seq<char>, SymbolCategory), SymbolMetadata>
    decreases s.len(),
{
    if s.len() == 0 {
        Map::empty()
    } else {
        symbol_map(s.drop_last()).insert(sym_key(s.last()), s.last())
    }
}

/// With distinct keys, the map holds exactly the entries' keys, each bound to
/// its entry.
proof fn lemma_symbol_map(s: Seq<SymbolMetadata>)
    requires
        keys_distinct(s),
    ensures
        forall|k| #[trigger] symbol_map(s).contains_key(k) <==> exists|i: int| 0 <= i < s.len() && sym_key(s[i]) == k,
        forall|i: int| 0 <= i < s.len() ==> #[trigger] symbol_map(s)[sym_key(s[i])] == s[i],
    decreases s.len(),
{
    if s.len() > 0 {
        let p = s.drop_last();
        assert(keys_distinct(p));
        lemma_symbol_map(p);
        assert forall|k| #[trigger] symbol_map(s).contains_key(k) <==> exists|i: int| 0 <= i < s.len() && sym_key(s[i]) == k by {
            if symbol_map(s).contains_key(k) && k != sym_key(s.last()) {
                assert(symbol_map(p).contains_key(k));
                let i = choose|i: int| 0 <= i < p.len() && sym_key(p[i]) == k;
                assert(s[i] == p[i]);
            }
            if exists|i: int| 0 <= i < s.len() && sym_key(s[i]) == k {
                let i = choose|i: int| 0 <= i < s.len() && sym_key(s[i]) == k;
                if i < s.len() - 1 {
                    assert(s[i] == p[i]);
                    assert(sym_key(p[i]) == k);
                    assert(symbol_map(p).contains_key(k));
                }
            }
        }
        assert forall|i: int| 0 <= i < s.len() implies #[trigger] symbol_map(s)[sym_key(s[i])] == s[i] by {
            if i < s.len() - 1 {
                assert(s[i] == p[i]);
                assert(sym_key(s[i]) != sym_key(s[s.len() - 1]));
                assert(symbol_map(p)[sym_key(p[i])] == p[i]);
                assert(symbol_map(s)[sym_key(s[i])] == symbol_map(p)[sym_key(p[i])]);
            } else {
                assert(s[i] == s.last());
            }
        }
    }
}

/// Replacing an entry by one with the same key rebinds that key.
proof fn lemma_symbol_map_update(s: Seq<SymbolMetadata>, i: int, m: SymbolMetadata)
    requires
        keys_distinct(s),
        0 <= i < s.len(),
        sym_key(s[i]) == sym_key(m),
    ensures
        keys_distinct(s.update(i, m)),
        symbol_map(s.update(i, m)) == symbol_map(s).insert(sym_key(m), m),
{
    let t = s.update(i, m);
    assert(keys_distinct(t)) by {
        assert forall|a: int, b: int| 0 <= a < b < t.len() implies sym_key(#[trigger] t[a]) != sym_key(#[trigger] t[b]) by {
            assert(sym_key(t[a]) == sym_key(s[a]));
            assert(sym_key(t[b]) == sym_key(s[b]));
        }
    }
    lemma_symbol_map(s);
    lemma_symbol_map(t);
    assert forall|k| #[trigger] symbol_map(t).contains_key(k) <==> symbol_map(s).insert(sym_key(m), m).contains_key(k) by {
        if exists|a: int| 0 <= a < t.len() && sym_key(t[a]) == k {
            let a = choose|a: int| 0 <= a < t.len() && sym_key(t[a]) == k;
            assert(sym_key(s[a]) == k);
        }
        if exists|a: int| 0 <= a < s.len() && sym_key(s[a]) == k {
            let a = choose|a: int| 0 <= a < s.len() && sym_key(s[a]) == k;
            assert(sym_key(t[a]) == k);
        }
    }
    assert forall|k| #[trigger] symbol_map(t).contains_key(k) implies symbol_map(t)[k] == symbol_map(s).insert(sym_key(m), m)[k] by {
        let a = choose|a: int| 0 <= a < t.len() && sym_key(t[a]) == k;
        assert(symbol_map(t)[sym_key(t[a])] == t[a]);
        if a != i {
            assert(symbol_map(s)[sym_key(s[a])] == s[a]);
        }
    }
    assert(symbol_map(t) =~= symbol_map(s).insert(sym_key(m), m));
}

/// Appending an entry with a new key keeps the keys distinct.
proof fn lemma_keys_distinct_push(s: Seq<SymbolMetadata>, m: SymbolMetadata)
    requires
        keys_distinct(s),
        forall|i: int| 0 <= i < s.len() ==> sym_key(#[trigger] s[i]) != sym_key(m),
    ensures
        keys_distinct(s.push(m)),
{
    let t = s.push(m);
    assert forall|a: int, b: int| 0 <= a < b < t.len() implies sym_key(#[trigger] t[a]) != sym_key(#[trigger] t[b]) by {
        if b < s.len() {
            assert(t[a] == s[a] && t[b] == s[b]);
        } else {
            assert(t[a] == s[a]);
        }
    }
}

/// Every parameter of every executor of the map accepts at least one type
/// (the type of a mismatched executor argument is reported against the
/// parameter's first allowed type).
pub open spec fn executor_params_typed(symbols: Map<(Seq<char>, SymbolCategory), SymbolMetadata>) -> bool {
    forall|k: (Seq<char>, SymbolCategory)| #[trigger] symbols.contains_key(k) && k.1 == SymbolCategory::Executor ==> forall|i: int|
        0 <= i < symbols[k].params@.len() ==> #[trigger] symbols[k].params@[i].allowed_types@.len() > 0
}

/// The position of the entry with the given key.
fn find_symbol(syms: &Vec<SymbolMetadata>, name: &str, category: SymbolCategory) -> (r: Option<usize>)
    ensures
        match r {
            Some(i) => i < syms@.len() && sym_key(syms@[i as int]) == (name@, category),
            None => forall|i: int| 0 <= i < syms@.len() ==> sym_key(#[trigger] syms@[i]) != (name@, category),
        },
{
    let mut i: usize = 0;
    while i < syms.len()
        invariant
            i <= syms@.len(),
            forall|j: int| 0 <= j < i ==> sym_key(#[trigger] syms@[j]) != (name@, category),
        decreases syms@.len() - i,
    {
        if syms[i].category == category && str_eq(syms[i].name, name) {
            return Some(i);
        }
        i += 1;
    }
    None
}

/// The registry of symbols that the checker consults, keyed by name and
/// category.
pub struct SymbolRegistry {
    symbols: Vec<SymbolMetadata>,
}

impl View for SymbolRegistry {
    type V = Map<(Seq<char>, SymbolCategory), SymbolMetadata>;

    closed spec fn view(&self) -> Self::V {
        symbol_map(self.symbols@)
    }
}

impl SymbolRegistry {
    #[verifier::type_invariant]
    spec fn inv(self) -> bool {
        keys_distinct(self.symbols@)
    }

    /// Every parameter of every registered executor accepts at least one
    /// type.
    pub open spec fn executor_params_typed(self) -> bool {
        executor_params_typed(self@)
    }

    /// An empty registry.
    pub fn new() -> (r: Self)
        ensures
            r@ == Map::<(Seq<char>, SymbolCategory), SymbolMetadata>::empty(),
    {
        SymbolRegistry { symbols: Vec::new() }
    }

    /// Registers a symbol under its name and category, replacing any symbol
    /// registered under the same key.
    pub fn register(&mut self, metadata: SymbolMetadata)
        ensures
            final(self)@ == old(self)@.insert(sym_key(metadata), metadata),
    {
        proof {
            use_type_invariant(&*self);
        }
        let mut syms: Vec<SymbolMetadata> = Vec::new();
        std::mem::swap(&mut syms, &mut self.symbols);
        let ghost s = syms@;
        match find_symbol(&syms, metadata.name, metadata.category) {
            Some(i) => {
                proof {
                    lemma_symbol_map_update(s, i as int, metadata);
                }
                syms.set(i, metadata);
            },
            None => {
                proof {
                    lemma_keys_distinct_push(s, metadata);
                }
                syms.push(metadata);
                assert(syms@.drop_last() =~= s);
            },
        }
        self.symbols = syms;
    }

    /// The symbol registered under the given name and category, if any.
    pub fn lookup(&self, name: &str, category: SymbolCategory) -> (r: Option<&SymbolMetadata>)
        ensures
            match r {
                Some(m) => self@.contains_key((name@, category)) && *m == self@[(name@, category)]
                    && m.name@ == name@ && m.category == category,
                None => !self@.contains_key((name@, category)),
            },
    {
        proof {
            use_type_invariant(self);
            lemma_symbol_map(self.symbols@);
        }
        match find_symbol(&self.symbols, name, category) {
            Some(i) => Some(&self.symbols[i]),
            None => None,
        }
    }

    /// All registered symbols of a category, each once.
    pub fn all_symbols(&self, category: SymbolCategory) -> (r: Vec<&SymbolMetadata>)
        ensures
            forall|i: int| 0 <= i < r@.len() ==> (#[trigger] r@[i]).category == category
                && self@.contains_key(sym_key(*r@[i])) && self@[sym_key(*r@[i])] == *r@[i],
            forall|k: (Seq<char>, SymbolCategory)| #[trigger] self@.contains_key(k) && k.1 == category
                ==> exists|i: int| 0 <= i < r@.len() && sym_key(*r@[i]) == k,
            forall|i: int, j: int| 0 <= i < j < r@.len() ==> sym_key(*#[trigger] r@[i]) != sym_key(*#[trigger] r@[j]),
    {
        proof {
            use_type_invariant(self);
            lemma_symbol_map(self.symbols@);
        }
        let mut out: Vec<&SymbolMetadata> = Vec::new();
        let mut i: usize = 0;
        let ghost idx: Seq<int> = Seq::empty();
        while i < self.symbols.len()
            invariant
                i <= self.symbols@.len(),
                keys_distinct(self.symbols@),
                forall|k| #[trigger] symbol_map(self.symbols@).contains_key(k) <==> exists|a: int| 0 <= a < self.symbols@.len() && sym_key(self.symbols@[a]) == k,
                forall|a: int| 0 <= a < self.symbols@.len() ==> #[trigger] symbol_map(self.symbols@)[sym_key(self.symbols@[a])] == self.symbols@[a],
                idx.len() == out@.len(),
                forall|a: int| 0 <= a < out@.len() ==> 0 <= #[trigger] idx[a] < i && *out@[a] == self.symbols@[idx[a]]
                    && out@[a].category == category,
                forall|a: int, b: int| 0 <= a < b < out@.len() ==> #[trigger] idx[a] < #[trigger] idx[b],
                forall|a: int| 0 <= a < i && (#[trigger] self.symbols@[a]).category == category
                    ==> exists|b: int| 0 <= b < out@.len() && idx[b] == a,
            decreases self.symbols@.len() - i,
        {
            let ghost old_out = out@;
            let ghost old_idx = idx;
            if self.symbols[i].category == category {
                out.push(&self.symbols[i]);
                proof {
                    idx = idx.push(i as int);
                    assert(idx[idx.len() - 1] == i as int);
                    assert forall|a: int| 0 <= a < out@.len() implies 0 <= #[trigger] idx[a] < i + 1 && *out@[a] == self.symbols@[idx[a]]
                        && out@[a].category == category by {
                        if a < old_out.len() {
                            assert(out@[a] == old_out[a]);
                            assert(idx[a] == old_idx[a]);
                        }
                    }
                }
            }
            proof {
                assert forall|a: int| 0 <= a < i + 1 && (#[trigger] self.symbols@[a]).category == category
                    implies exists|b: int| 0 <= b < out@.len() && idx[b] == a by {
                    if a < i {
                        let b = choose|b: int| 0 <= b < old_out.len() && old_idx[b] == a;
                        assert(idx[b] == a);
                    } else {
                        assert(idx[out@.len() - 1] == a);
                    }
                }
            }
            i += 1;
        }
        proof {
            assert(self@ == symbol_map(self.symbols@));
            assert forall|a: int| 0 <= a < out@.len() implies (#[trigger] out@[a]).category == category
                && self@.contains_key(sym_key(*out@[a])) && self@[sym_key(*out@[a])] == *out@[a] by {
                assert(*out@[a] == self.symbols@[idx[a]]);
                assert(symbol_map(self.symbols@)[sym_key(self.symbols@[idx[a]])] == self.symbols@[idx[a]]);
            }
            assert forall|a: int, b: int| 0 <= a < b < out@.len() implies sym_key(*#[trigger] out@[a]) != sym_key(*#[trigger] out@[b]) by {
                assert(idx[a] < idx[b]);
            }
            assert forall|k: (Seq<char>, SymbolCategory)| #[trigger] self@.contains_key(k) && k.1 == category
                implies exists|b: int| 0 <= b < out@.len() && sym_key(*out@[b]) == k by {
                let a = choose|a: int| 0 <= a < self.symbols@.len() && sym_key(self.symbols@[a]) == k;
                assert(self.symbols@[a].category == category);
                let b = choose|b: int| 0 <= b < out@.len() && idx[b] == a;
                assert(sym_key(*out@[b]) == k);
            }
        }
        out
    }

    /// Registers every symbol of `other`, replacing those registered here
    /// under the same keys.
    pub fn merge(&mut self, other: SymbolRegistry)
        ensures
            final(self)@ == old(self)@.union_prefer_right(other@),
    {
        let ghost target = other@;
        let ghost start = self@;
        let SymbolRegistry { symbols } = other;
        let mut rest = symbols;
        let ghost orig = rest@;
        let n = rest.len();
        let mut k: usize = 0;
        while rest.len() > 0
            invariant
                k <= orig.len(),
                orig.len() == n,
                rest@ == orig.skip(k as int),
                self@ == start.union_prefer_right(symbol_map(orig.take(k as int))),
                target == symbol_map(orig),
            decreases rest@.len(),
        {
            assert(rest@.len() == orig.len() - k);
            let m = rest.remove(0);
            proof {
                assert(m == orig[k as int]);
                assert(orig.take(k + 1).drop_last() =~= orig.take(k as int));
            }
            self.register(m);
            k += 1;
            proof {
                assert(rest@ =~= orig.skip(k as int));
                assert(self@ =~= start.union_prefer_right(symbol_map(orig.take(k as int))));
            }
        }
        assert(orig.take(k as int) =~= orig);
    }
}

/// A copy of the registry: the same keys, each with a copy of its symbol.
impl Clone for SymbolRegistry {
    fn clone(&self) -> (r: Self)
        ensures
            r@.dom() == self@.dom(),
            forall|k| #[trigger] self@.contains_key(k) ==> same_metadata(self@[k], r@[k]),
    {
        proof {
            use_type_invariant(self);
            lemma_symbol_map(self.symbols@);
        }
        let mut out: Vec<SymbolMetadata> = Vec::new();
        let mut i: usize = 0;
        while i < self.symbols.len()
            invariant
                i <= self.symbols@.len(),
                out@.len() == i,
                forall|a: int| 0 <= a < i ==> sym_key(#[trigger] out@[a]) == sym_key(self.symbols@[a]),
                forall|a: int| 0 <= a < i ==> same_metadata(self.symbols@[a], #[trigger] out@[a]),
            decreases self.symbols@.len() - i,
        {
            out.push(self.symbols[i].clone());
            i += 1;
        }
        proof {
            assert(keys_distinct(out@)) by {
                assert forall|a: int, b: int| 0 <= a < b < out@.len() implies sym_key(#[trigger] out@[a]) != sym_key(#[trigger] out@[b]) by {
                    assert(sym_key(out@[a]) == sym_key(self.symbols@[a]));
                    assert(sym_key(out@[b]) == sym_key(self.symbols@[b]));
                }
            }
            lemma_symbol_map(out@);
            assert forall|k| symbol_map(out@).dom().contains(k) <==> symbol_map(self.symbols@).dom().contains(k) by {
                if symbol_map(out@).contains_key(k) {
                    let a = choose|a: int| 0 <= a < out@.len() && sym_key(out@[a]) == k;
                    assert(sym_key(self.symbols@[a]) == k);
                }
                if symbol_map(self.symbols@).contains_key(k) {
                    let a = choose|a: int| 0 <= a < self.symbols@.len() && sym_key(self.symbols@[a]) == k;
                    assert(sym_key(out@[a]) == k);
                }
            }
            assert(symbol_map(out@).dom() =~= symbol_map(self.symbols@).dom());
            assert forall|k| #[trigger] symbol_map(self.symbols@).contains_key(k) implies same_metadata(
                symbol_map(self.symbols@)[k],
                symbol_map(out@)[k],
            ) by {
                let a = choose|a: int| 0 <= a < self.symbols@.len() && sym_key(self.symbols@[a]) == k;
                assert(sym_key(out@[a]) == k);
                assert(symbol_map(self.symbols@)[sym_key(self.symbols@[a])] == self.symbols@[a]);
                assert(symbol_map(out@)[sym_key(out@[a])] == out@[a]);
            }
        }
        SymbolRegistry { symbols: out }
    }
}

/// An empty registry.
impl Default for SymbolRegistry {
    fn default() -> (r: Self)
        ensures
            r@ == Map::<(Seq<char>, SymbolCategory), SymbolMetadata>::empty(),
    {
        Self::new()
    }
}

/// A lookup after a registration finds the registered symbol, and a
/// registration leaves every other key as it was.
pub proof fn lemma_register_then_lookup(before: Map<(Seq<char>, SymbolCategory), SymbolMetadata>, m: SymbolMetadata, k: (Seq<char>, SymbolCategory))
    ensures
        before.insert(sym_key(m), m).contains_key(sym_key(m)),
        before.insert(sym_key(m), m)[sym_key(m)] == m,
        k != sym_key(m) ==> (before.insert(sym_key(m), m).contains_key(k) == before.contains_key(k)
            && (before.contains_key(k) ==> before.insert(sym_key(m), m)[k] == before[k])),
{
}

} // verus!
