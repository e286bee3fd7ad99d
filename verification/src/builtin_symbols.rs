//! The registry of built-in symbols: the framework-level control-flow
//! executors and condition combinators, on which a business domain registers
//! its own symbols.

use vstd::prelude::*;
use crate::symbol_table::{executor_params_typed, sym_key, ParamSpec, SymbolCategory, SymbolMetadata, SymbolRegistry};
use crate::types::{Ty, TypeSpec};

verus! {

/// Whether `m` is a built-in symbol of the given name and category with no
/// value type, no parameters and no context interactions.
pub open spec fn is_plain_builtin(m: SymbolMetadata, name: Seq<char>, cat: SymbolCategory) -> bool {
    &&& m.name@ == name
    &&& m.category == cat
    &&& m.returns is None
    &&& m.params@.len() == 0
    &&& m.contexts@.len() == 0
}

/// Whether `m` is the built-in `Spawn` executor: no value type, no context
/// interactions, and one optional parameter `task` of type `Any`.
pub open spec fn is_spawn_builtin(m: SymbolMetadata) -> bool {
    &&& m.name@ == "Spawn"@
    &&& m.category == SymbolCategory::Executor
    &&& m.returns is None
    &&& m.contexts@.len() == 0
    &&& m.params@.len() == 1
    &&& m.params@[0].name@ == "task"@
    &&& !m.params@[0].required
    &&& m.params@[0].allowed_types@.len() == 1
    &&& m.params@[0].allowed_types@[0]@ == Ty::Any
}

/// The registry of the built-in symbols:
///
/// | symbol  | category  | meaning                                              |
/// |---------|-----------|------------------------------------------------------|
/// | `Done`  | Executor  | ends the current sell sequence with the done signal  |
/// | `Spawn` | Executor  | spawns a background task (its `task` argument)       |
/// | `All`   | Condition | holds once all sub-conditions hold                   |
/// | `OneOf` | Condition | holds once any sub-condition holds                   |
pub fn builtin_symbol_registry() -> (r: SymbolRegistry)
    ensures
        r@.dom() == set![
            ("Done"@, SymbolCategory::Executor),
            ("Spawn"@, SymbolCategory::Executor),
            ("All"@, SymbolCategory::Condition),
            ("OneOf"@, SymbolCategory::Condition),
        ],
        is_plain_builtin(r@[("Done"@, SymbolCategory::Executor)], "Done"@, SymbolCategory::Executor),
        is_spawn_builtin(r@[("Spawn"@, SymbolCategory::Executor)]),
        is_plain_builtin(r@[("All"@, SymbolCategory::Condition)], "All"@, SymbolCategory::Condition),
        is_plain_builtin(r@[("OneOf"@, SymbolCategory::Condition)], "OneOf"@, SymbolCategory::Condition),
        executor_params_typed(r@),
{
    let mut r = SymbolRegistry::new();
    let mut symbols = builtin_symbols();
    let ghost s = symbols@;
    proof {
        reveal_strlit("Done");
        reveal_strlit("Spawn");
        reveal_strlit("All");
        reveal_strlit("OneOf");
    }
    let m3 = symbols.pop().unwrap();
    let m2 = symbols.pop().unwrap();
    let m1 = symbols.pop().unwrap();
    let m0 = symbols.pop().unwrap();
    assert(m0 == s[0] && m1 == s[1] && m2 == s[2] && m3 == s[3]);
    r.register(m0);
    r.register(m1);
    r.register(m2);
    r.register(m3);
    proof {
        let k0 = ("Done"@, SymbolCategory::Executor);
        let k1 = ("Spawn"@, SymbolCategory::Executor);
        let k2 = ("All"@, SymbolCategory::Condition);
        let k3 = ("OneOf"@, SymbolCategory::Condition);
        assert(sym_key(m0) == k0 && sym_key(m1) == k1 && sym_key(m2) == k2 && sym_key(m3) == k3);
        assert("Done"@.len() == 4 && "Spawn"@.len() == 5);
        assert("All"@.len() == 3 && "OneOf"@.len() == 5);
        assert(k0 != k1);
        assert(k2 != k3);
        assert(r@.dom() =~= set![k0, k1, k2, k3]);
        assert(r@[k0] == m0);
        assert(r@[k1] == m1);
        assert(r@[k2] == m2);
        assert(r@[k3] == m3);
        assert forall|k: (Seq<char>, SymbolCategory)| #[trigger] r@.contains_key(k) && k.1 == SymbolCategory::Executor implies forall|i: int|
            0 <= i < r@[k].params@.len() ==> #[trigger] r@[k].params@[i].allowed_types@.len() > 0 by {
        }
    }
    r
}

/// The built-in symbols, in order: `Done`, `Spawn`, `All`, `OneOf`.
fn builtin_symbols() -> (r: Vec<SymbolMetadata>)
    ensures
        r@.len() == 4,
        is_plain_builtin(r@[0], "Done"@, SymbolCategory::Executor),
        is_spawn_builtin(r@[1]),
        is_plain_builtin(r@[2], "All"@, SymbolCategory::Condition),
        is_plain_builtin(r@[3], "OneOf"@, SymbolCategory::Condition),
{
    let task = ParamSpec { name: "task", allowed_types: vec![TypeSpec::Any], required: false };
    vec![
        SymbolMetadata {
            name: "Done",
            returns: None,
            category: SymbolCategory::Executor,
            params: Vec::new(),
            contexts: Vec::new(),
        },
        SymbolMetadata {
            name: "Spawn",
            returns: None,
            category: SymbolCategory::Executor,
            // The pipeline builds `task` itself for `Spawn[...]`; programs do
            // not write it.
            params: vec![task],
            contexts: Vec::new(),
        },
        SymbolMetadata {
            name: "All",
            returns: None,
            category: SymbolCategory::Condition,
            params: Vec::new(),
            contexts: Vec::new(),
        },
        SymbolMetadata {
            name: "OneOf",
            returns: None,
            category: SymbolCategory::Condition,
            params: Vec::new(),
            contexts: Vec::new(),
        },
    ]
}

} // verus!
