//! Tests of the probe catalog and the wildcard resolver: the seeded
//! catalog, case folding, silent zero-match resolution, duplicate
//! registration and script-unit naming.

use whamm::parser::types::{
    DataType, Event, Expr, LineColLocation, Location, Package, Probe, Provider, Statement, Value,
    Whamm, Whammy,
};

fn sample_predicate() -> Expr {
    Expr::BinOp {
        lhs: Box::new(Expr::VarId { name: "i".to_string(), loc: None }),
        op: whamm::parser::types::Op::EQ,
        rhs: Box::new(Expr::Primitive {
            val: Value::Integer { ty: DataType::Integer, val: 1 },
            loc: None,
        }),
        loc: None,
    }
}

fn sample_body() -> Vec<Statement> {
    vec![Statement::Expr {
        expr: Expr::VarId { name: "i".to_string(), loc: None },
        loc: None,
    }]
}

#[test]
fn the_catalog_seeds_core_and_wasm() {
    let whamm = Whamm::new();
    let cat = &whamm.provided_probes;
    assert_eq!(cat.providers.len(), 2);
    assert_eq!(cat.providers[0].name, "core");
    assert_eq!(cat.providers[0].packages[0].name, "");
    assert_eq!(cat.providers[0].packages[0].events[0].name, "");
    assert_eq!(cat.providers[0].packages[0].events[0].probe_types, vec!["begin", "end"]);
    assert_eq!(cat.providers[1].name, "wasm");
    assert_eq!(cat.providers[1].packages[0].name, "bytecode");
    assert_eq!(cat.providers[1].packages[0].events.len(), 48);
    assert_eq!(cat.providers[1].packages[0].events[2].name, "Call");
    assert_eq!(
        cat.providers[1].packages[0].events[2].probe_types,
        vec!["before", "after", "alt"]
    );
    assert_eq!(whamm.fns.len(), 1);
    assert_eq!(whamm.fns[0].name, "strcmp");
}

#[test]
fn add_whammy_assigns_generated_names() {
    let mut whamm = Whamm::new();
    let id0 = whamm.add_whammy(Whammy::new());
    let id1 = whamm.add_whammy(Whammy::new());
    assert_eq!(id0, 0);
    assert_eq!(id1, 1);
    assert_eq!(whamm.whammys[0].name, "whammy0");
    assert_eq!(whamm.whammys[1].name, "whammy1");
}

#[test]
fn an_exact_spec_inserts_exactly_one_probe() {
    let whamm = Whamm::new();
    let mut unit = Whammy::new();
    unit.add_probe(
        &whamm.provided_probes,
        "core",
        "",
        "",
        "begin",
        Some(sample_predicate()),
        Some(sample_body()),
    )
    .unwrap();
    assert_eq!(unit.providers.len(), 1);
    assert_eq!(unit.providers[0].name, "core");
    assert_eq!(unit.providers[0].packages.len(), 1);
    assert_eq!(unit.providers[0].packages[0].name, "");
    let event = &unit.providers[0].packages[0].events[0];
    assert_eq!(event.name, "");
    assert_eq!(event.probe_map.len(), 1);
    assert_eq!(event.probe_map[0].name, "begin");
    assert_eq!(event.probe_map[0].probes.len(), 1);
    let probe = &event.probe_map[0].probes[0];
    assert_eq!(probe.name, "begin");
    assert_eq!(probe.predicate, Some(sample_predicate()));
    assert_eq!(probe.body.as_ref().unwrap(), &sample_body());
}

#[test]
fn registering_twice_keeps_both_probes() {
    let whamm = Whamm::new();
    let mut unit = Whammy::new();
    for _ in 0..2 {
        unit.add_probe(
            &whamm.provided_probes,
            "wasm",
            "bytecode",
            "Call",
            "before",
            Some(sample_predicate()),
            Some(sample_body()),
        )
        .unwrap();
    }
    let event = &unit.providers[0].packages[0].events[0];
    assert_eq!(event.name, "call");
    assert_eq!(event.probe_map.len(), 1);
    assert_eq!(event.probe_map[0].probes.len(), 2);
    assert_eq!(
        event.probe_map[0].probes[0].predicate,
        event.probe_map[0].probes[1].predicate
    );
}

#[test]
fn an_unknown_provider_resolves_to_zero_probes() {
    // `dfinity:::alt` parses, but the default catalog knows no such
    // provider: resolution is silently empty.
    assert!(whamm::parser::whamm_parser::is_valid_script("dfinity:::alt { }"));
    let whamm = Whamm::new();
    let mut unit = Whammy::new();
    unit.add_probe(&whamm.provided_probes, "dfinity", "", "", "alt", None, None).unwrap();
    assert!(unit.providers.is_empty());
}

#[test]
fn an_empty_segment_matches_only_an_empty_key() {
    let whamm = Whamm::new();
    let mut unit = Whammy::new();
    // The empty package pattern must not match `wasm`'s `bytecode`: both
    // providers match `*` and get nodes, but only `core` gains a package.
    unit.add_probe(&whamm.provided_probes, "*", "", "", "begin", None, None).unwrap();
    assert_eq!(unit.providers.len(), 2);
    assert_eq!(unit.providers[0].name, "core");
    assert_eq!(unit.providers[0].packages.len(), 1);
    assert_eq!(unit.providers[0].packages[0].events[0].probe_map[0].probes.len(), 1);
    assert_eq!(unit.providers[1].name, "wasm");
    assert!(unit.providers[1].packages.is_empty());
}

fn probe_names_of(unit: &Whammy) -> Vec<(String, String, String, String, usize)> {
    let mut out = vec![];
    for p in &unit.providers {
        for k in &p.packages {
            for e in &k.events {
                for pl in &e.probe_map {
                    out.push((
                        p.name.clone(),
                        k.name.clone(),
                        e.name.clone(),
                        pl.name.clone(),
                        pl.probes.len(),
                    ));
                }
            }
        }
    }
    out
}

#[test]
fn resolution_is_case_insensitive() {
    let whamm = Whamm::new();
    let mut upper = Whammy::new();
    upper
        .add_probe(&whamm.provided_probes, "WASM", "BYTECODE", "CALL", "BEFORE", None, None)
        .unwrap();
    let mut lower = Whammy::new();
    lower
        .add_probe(&whamm.provided_probes, "wasm", "bytecode", "call", "before", None, None)
        .unwrap();
    assert_eq!(probe_names_of(&upper), probe_names_of(&lower));
    assert_eq!(upper.providers[0].name, "wasm");
    assert_eq!(upper.providers[0].packages[0].events[0].name, "call");
}

#[test]
fn wildcards_expand_over_the_catalog() {
    let whamm = Whamm::new();
    let mut unit = Whammy::new();
    unit.add_probe(&whamm.provided_probes, "wasm", "*", "*", "*", None, None).unwrap();
    assert_eq!(unit.providers.len(), 1);
    let pkg = &unit.providers[0].packages[0];
    assert_eq!(pkg.events.len(), 48);
    for e in &pkg.events {
        assert_eq!(e.probe_map.len(), 3);
        for pl in &e.probe_map {
            assert_eq!(pl.probes.len(), 1);
        }
    }
}

#[test]
fn bracket_classes_match_as_globs() {
    let whamm = Whamm::new();
    let mut unit = Whammy::new();
    unit.add_probe(&whamm.provided_probes, "w[ab]sm", "bytecode", "Br", "alt", None, None)
        .unwrap();
    assert_eq!(unit.providers.len(), 1);
    assert_eq!(unit.providers[0].name, "wasm");
    assert_eq!(unit.providers[0].packages[0].events[0].name, "br");
}

#[test]
fn a_malformed_glob_is_rejected_and_changes_nothing() {
    let whamm = Whamm::new();
    let mut unit = Whammy::new();
    let r = unit.add_probe(&whamm.provided_probes, "w[asm", "*", "*", "*", None, None);
    assert!(r.is_err());
    assert!(unit.providers.is_empty());
}

#[test]
fn the_call_event_provides_its_target_globals() {
    let whamm = Whamm::new();
    let mut unit = Whammy::new();
    unit.add_probe(&whamm.provided_probes, "wasm", "bytecode", "call", "alt", None, None)
        .unwrap();
    let event = &unit.providers[0].packages[0].events[0];
    let names: Vec<&str> = event.globals.iter().map(|g| match &g.var_name {
        Expr::VarId { name, .. } => name.as_str(),
        _ => "",
    }).collect();
    assert_eq!(
        names,
        vec!["target_fn_type", "target_imp_module", "target_imp_name", "new_target_fn_name"]
    );
    assert!(event.globals.iter().all(|g| g.is_comp_provided));
}

#[test]
fn probes_are_cloned_per_match_not_shared() {
    let whamm = Whamm::new();
    let mut unit = Whammy::new();
    unit.add_probe(
        &whamm.provided_probes,
        "wasm",
        "bytecode",
        "Call",
        "*",
        Some(sample_predicate()),
        Some(sample_body()),
    )
    .unwrap();
    let event = &unit.providers[0].packages[0].events[0];
    assert_eq!(event.probe_map.len(), 3);
    let names: Vec<&String> = event.probe_map.iter().map(|pl| &pl.name).collect();
    assert_eq!(names, vec!["before", "after", "alt"]);
    for pl in &event.probe_map {
        assert_eq!(pl.probes.len(), 1);
        assert_eq!(pl.probes[0].predicate, Some(sample_predicate()));
    }
}

#[test]
fn statement_dummy_is_the_zero_literal() {
    let s = Statement::dummy();
    match s {
        Statement::Expr { expr: Expr::Primitive { val, .. }, .. } => {
            assert_eq!(val, Value::Integer { ty: DataType::Integer, val: 0 });
        }
        other => panic!("unexpected dummy statement: {:?}", other),
    }
}

#[test]
fn locations_combine_into_a_covering_span() {
    let a = LineColLocation::Pos((1, 2));
    let b = LineColLocation::Span((3, 4), (5, 6));
    let joined = Location::from(&a, &b, Some("script.mm".to_string()));
    assert_eq!(joined.line_col, LineColLocation::Span((1, 2), (5, 6)));
    assert_eq!(joined.path, Some("script.mm".to_string()));
}

#[test]
fn get_matches_reports_matching_names() {
    let whamm = Whamm::new();
    let cat = &whamm.provided_probes;
    assert_eq!(Provider::get_matches(cat, "*"), vec!["core", "wasm"]);
    assert_eq!(Provider::get_matches(cat, "WaSm"), vec!["wasm"]);
    assert_eq!(Package::get_matches(cat, "wasm", "byte*"), vec!["bytecode"]);
    assert_eq!(Event::get_matches(cat, "wasm", "bytecode", "Memory*").len(), 5);
    assert_eq!(
        Probe::get_matches(cat, "wasm", "bytecode", "Call", "a*"),
        vec!["after", "alt"]
    );
}

#[test]
fn insert_probe_appends_in_order() {
    let mut event = Event::new("call".to_string());
    event.insert_probe("before".to_string(), Probe::new("before".to_string(), None, None));
    event.insert_probe("after".to_string(), Probe::new("after".to_string(), None, None));
    event.insert_probe("before".to_string(), Probe::new("before".to_string(), None, None));
    assert_eq!(event.probe_map.len(), 2);
    assert_eq!(event.probe_map[0].name, "before");
    assert_eq!(event.probe_map[0].probes.len(), 2);
    assert_eq!(event.probe_map[1].name, "after");
    assert_eq!(event.probe_map[1].probes.len(), 1);
}

#[test]
fn a_wildcard_spec_travels_from_source_text_to_probes() {
    // The full front-end pipeline: parse a wildcarded declaration, then
    // resolve the quadruple it carries against the default catalog.
    let ast = whamm::parser::whamm_parser::get_ast(
        "wasm:bytecode:Mem*:before / i == 1 / { i; }",
    )
    .unwrap();
    let whamm::parser::whamm_parser::AstNode::ProbeDecl {
        provider,
        package,
        event,
        probe_type,
        predicate,
        body,
        ..
    } = &ast[0];
    let whamm = Whamm::new();
    let mut unit = Whammy::new();
    unit.add_probe(
        &whamm.provided_probes,
        provider,
        package,
        event,
        probe_type,
        predicate.as_ref().map(whamm::parser::types::copy_expr),
        Some(whamm::parser::types::copy_statements(body)),
    )
    .unwrap();
    // MemorySize, MemoryGrow, MemoryInit, MemoryCopy, MemoryFill.
    let pkg = &unit.providers[0].packages[0];
    assert_eq!(pkg.events.len(), 5);
    let names: Vec<&str> = pkg.events.iter().map(|e| e.name.as_str()).collect();
    assert_eq!(names, vec!["memorysize", "memorygrow", "memoryinit", "memorycopy", "memoryfill"]);
    for e in &pkg.events {
        assert_eq!(e.probe_map.len(), 1);
        assert_eq!(e.probe_map[0].name, "before");
        assert_eq!(e.probe_map[0].probes.len(), 1);
        assert!(e.probe_map[0].probes[0].predicate.is_some());
    }
}
