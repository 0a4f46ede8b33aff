use vstd::prelude::*;

verus! {

/// A single entry of a symbol table.
#[derive(Debug, Clone)]
pub struct Symbol {
    /// The name of the symbol
    pub name: String,
    /// What the symbol names: a variable, a function
    pub symbol_type: SymbolType,
    /// The data type of the symbol, such as `int` or `string`, where it has one
    pub data_type: Option<String>,
}

/// What a symbol names.
#[derive(Debug, Clone, Copy, PartialEq, Eq, Structural)]
pub enum SymbolType {
    Variable,
    Function,
}

} // verus!
