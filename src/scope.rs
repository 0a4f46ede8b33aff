use vstd::prelude::*;
use std::collections::HashMap;
use crate::symbol::Symbol;

verus! {

/// A scope of a symbol table: its symbols by name, and the enclosing scope. The
/// global scope has no parent.
#[derive(Debug)]
pub struct Scope {
    symbols: HashMap<String, Symbol>,
    parent: Option<Box<Scope>>,
}

impl Scope {
    /// The symbols of this scope.
    pub closed spec fn symbol_map(&self) -> Map<String, Symbol> {
        self.symbols@
    }

    /// The enclosing scope.
    pub closed spec fn enclosing(&self) -> Option<Box<Scope>> {
        self.parent
    }

    /// An empty scope inside `parent`.
    pub fn new(parent: Option<Box<Scope>>) -> (r: Self)
        ensures
            r.symbol_map() == Map::<String, Symbol>::empty(),
            r.enclosing() == parent,
    {
        Scope { symbols: HashMap::new(), parent }
    }

    /// Takes the symbols of this scope.
    pub fn symbols(self) -> (r: HashMap<String, Symbol>)
        ensures
            r@ == self.symbol_map(),
    {
        self.symbols
    }

    /// Takes the enclosing scope.
    pub fn parent(self) -> (r: Option<Box<Scope>>)
        ensures
            r == self.enclosing(),
    {
        self.parent
    }
}

} // verus!
