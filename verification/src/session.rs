//! What a parse reads but never changes.

use crate::source_map::SourceMap;
use crate::symbol::SymbolTable;
use vstd::prelude::*;

verus! {

/// The parsing session: the symbols that the tokens refer to and the line
/// structure of the source.
pub struct ParseSess {
    pub symbols: SymbolTable,
    pub source_map: SourceMap,
}

impl ParseSess {
    pub fn new(symbols: SymbolTable, source_map: SourceMap) -> (sess: ParseSess)
        ensures
            sess.symbols == symbols,
            sess.source_map == source_map,
    {
        ParseSess { symbols, source_map }
    }

    /// The line structure of the source.
    pub fn source_map(&self) -> (map: &SourceMap)
        ensures
            *map == self.source_map,
    {
        &self.source_map
    }

    /// The symbols of the session.
    pub fn symbols(&self) -> (symbols: &SymbolTable)
        ensures
            *symbols == self.symbols,
    {
        &self.symbols
    }
}

} // verus!
