pub mod builder_visitor;
pub mod types;

use vstd::prelude::*;
use crate::parser::types::{Whamm, WhammVisitor};
use crate::checker::builder_visitor::SymbolTableBuilder;
use crate::checker::types::{spec_symbol_table, SymbolTable};

verus! {

/// Semantic checking over a completed tree; today this builds the symbol
/// table that the next stages consume.
pub fn verify(ast: &Whamm) -> (table: SymbolTable)
    ensures
        table@ == spec_symbol_table(ast@),
{
    let table = build_symbol_table(ast);
    table
}

fn build_symbol_table(ast: &Whamm) -> (table: SymbolTable)
    ensures
        table@ == spec_symbol_table(ast@),
{
    let mut visitor = SymbolTableBuilder::new();
    visitor.build(ast);
    let t = visitor.take_table();
    t
}

} // verus!
