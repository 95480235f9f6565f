//! Tests of the symbol table builder: declaration collection over a
//! resolved tree, scope per scope.

use whamm::checker::verify;
use whamm::parser::types::{Whamm, Whammy};

#[test]
fn the_table_records_program_level_declarations() {
    let whamm = Whamm::new();
    let table = verify(&whamm);
    assert_eq!(table.fns.len(), 1);
    assert_eq!(table.fns[0].name, "strcmp");
    assert!(table.fns[0].is_comp_provided);
    assert_eq!(table.fns[0].params.len(), 2);
    assert!(table.vars.is_empty());
    assert!(table.scopes.is_empty());
}

#[test]
fn the_table_nests_scopes_by_unit_and_hierarchy() {
    let mut whamm = Whamm::new();
    let mut unit = Whammy::new();
    unit.add_probe(&whamm.provided_probes, "wasm", "bytecode", "Call", "before", None, None)
        .unwrap();
    unit.add_probe(&whamm.provided_probes, "core", "", "", "begin", None, None).unwrap();
    whamm.add_whammy(unit);
    let table = verify(&whamm);

    assert_eq!(table.scopes.len(), 1);
    let unit_scope = &table.scopes[0];
    assert_eq!(unit_scope.name, "whammy0");
    assert_eq!(unit_scope.children.len(), 2);

    let wasm_scope = &unit_scope.children[0];
    assert_eq!(wasm_scope.name, "wasm");
    assert_eq!(wasm_scope.children.len(), 1);
    assert_eq!(wasm_scope.children[0].name, "bytecode");
    let call_scope = &wasm_scope.children[0].children[0];
    assert_eq!(call_scope.name, "call");
    // The `call` event's four host-provided target globals are recorded.
    assert_eq!(call_scope.vars.len(), 4);
    assert_eq!(call_scope.vars[0].name, "target_fn_type");
    assert!(call_scope.vars[0].is_comp_provided);
    // One probe scope per inserted probe.
    assert_eq!(call_scope.children.len(), 1);
    assert_eq!(call_scope.children[0].name, "before");

    let core_scope = &unit_scope.children[1];
    assert_eq!(core_scope.name, "core");
    assert_eq!(core_scope.children[0].name, "");
    assert_eq!(core_scope.children[0].children[0].name, "");
    assert_eq!(core_scope.children[0].children[0].children[0].name, "begin");
}
