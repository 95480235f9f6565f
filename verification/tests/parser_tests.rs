//! Tests of the lexer and parser: the grammar's accepted and rejected
//! forms, precedence, comments and the rendered tree.

use whamm::parser::whamm_parser::{dump_ast, get_ast, is_valid_script, run_test_on_valid_list};
use whamm::parser::whamm_parser::AstNode;
use whamm::parser::types::{Expr, Op};

const VALID_SCRIPTS: &'static [&'static str] = &[
    // Variations of PROBE_SPEC
    r#"
    dfinity:module:function:alt { }
    "#,
    r#"
    dfinity:module:function:before { }
    "#,
    r#"
    dfinity:module:function:after { }
    "#,
    r#"
    BEGIN { }
    "#,
    r#"
    END { }
    "#,
    "dfinity::function:alt { }",
    "dfinity:module::alt { }",
    // Predicates
    "dfinity:module:function:before / i / { }",
    "dfinity:module:function:before / \"i\" <= 1 / { }",
    "dfinity:module:function:before / i54 < r77 / { }",
    "dfinity:module:function:before / i54 < r77 / { }",
    "dfinity:module:function:before / i != 7 / { }",
    "dfinity:module:function:before / (i == \"1\") && (b == \"2\") / { }",
    "dfinity:module:function:before / i == \"1\" && b == \"2\" / { }",
    "dfinity:module:function:before / i == (1 + 3) / { i; }",
    // Statements
    r#"
    dfinity:module:function:before {
        i;
    }
    "#,
    // Comments
    r#"
    /* comment */
    dfinity:module:function:before { }
    "#,
    "dfinity:module:function:before { } // this is a comment",
    r#"/* comment */
    dfinity:module:function:before { } // this is a comment
    "#,
    r#"
    dfinity:module:function:before {
        i; // this is a comment
    }
    "#,
];

const INVALID_SCRIPTS: &'static [&'static str] = &[
    // Variations of PROBE_SPEC
    "dfinity:module:function:alt: { }",
    "dfinity:module:function:alt",
    "dfinity:module:function:alt: { }",
    "dfinity:module:function:dne",
    // Empty predicate
    "dfinity:module:function:alt  // { }",
    "dfinity:module:function:alt / 5i < r77 / { }",
    "dfinity:module:function:alt  / i == \"\"\"\" / { }",
    // bad statement
    "dfinity:module:function:alt / i == 1 / { 2i; }",
];

const SPECIAL: &'static [&'static str] = &["BEGIN { }", "END { }", "dfinity:::alt { }"];

#[test]
pub fn test_parse_valid_scripts() {
    for script in VALID_SCRIPTS {
        assert!(
            is_valid_script(script),
            "script = '{}' is not recognized as valid, but it should be",
            script
        );
    }
    run_test_on_valid_list(VALID_SCRIPTS.iter().map(|s| s.to_string()).collect());
}

#[test]
pub fn test_parse_invalid_scripts() {
    for script in INVALID_SCRIPTS {
        assert!(
            !is_valid_script(script),
            "string = '{}' is recognized as valid, but it should not",
            script
        );
    }
}

#[test]
pub fn test_ast_special_cases() {
    for script in SPECIAL {
        assert!(
            is_valid_script(script),
            "script = '{}' is not recognized as valid, but it should be",
            script
        );
    }
    run_test_on_valid_list(SPECIAL.iter().map(|s| s.to_string()).collect());
}

#[test]
pub fn test_ast_dumper() {
    let script = "dfinity:module:function:alt { i; }";
    match get_ast(script) {
        Some(ast) => {
            dump_ast(&ast);
        }
        None => {
            assert!(false, "Could not get ast from script: {script}");
        }
    };
}

#[test]
pub fn test_implicit_probe_defs_dumper() {
    let script = "dfinity:::alt / (i == \"1\") && (b == \"2\") / { i; }";
    match get_ast(script) {
        Some(ast) => {
            dump_ast(&ast);
        }
        None => {
            assert!(false, "Could not get ast from script: {script}");
        }
    };
}

// The four specification arities parse when the final non-empty segment is
// a known probe-type token, and fail when it is not.

#[test]
fn probe_spec_arities_accept_known_probe_types() {
    assert!(is_valid_script("begin { }"));
    assert!(is_valid_script("core:begin { }"));
    assert!(is_valid_script("wasm:bytecode:alt { }"));
    assert!(is_valid_script("dfinity:module:function:before { }"));
}

#[test]
fn probe_spec_arities_reject_unknown_probe_types() {
    assert!(!is_valid_script("dne { }"));
    assert!(!is_valid_script("core:dne { }"));
    assert!(!is_valid_script("wasm:bytecode:dne { }"));
    assert!(!is_valid_script("dfinity:module:function:dne { }"));
}

// `BEGIN { }` and `END { }` are sugar for `core:::begin { }` and
// `core:::end { }`: the trees are equal.

#[test]
fn begin_end_sugar_matches_core_spelling() {
    let sugar = get_ast("BEGIN { }").unwrap();
    let plain = get_ast("core:::begin { }").unwrap();
    assert_eq!(sugar, plain);

    let sugar = get_ast("END { }").unwrap();
    let plain = get_ast("core:::end { }").unwrap();
    assert_eq!(sugar, plain);
}

// `i == 1 + 3` parses as `i == (1 + 3)`, not `(i == 1) + 3`.

#[test]
fn precedence_binds_additive_tighter_than_relational() {
    let ast = get_ast("dfinity:module:function:before / i == 1 + 3 / { }").unwrap();
    let AstNode::ProbeDecl { predicate, .. } = &ast[0];
    match predicate {
        Some(Expr::BinOp { op, lhs, rhs, .. }) => {
            assert_eq!(*op, Op::EQ);
            assert!(matches!(**lhs, Expr::VarId { .. }));
            match &**rhs {
                Expr::BinOp { op, .. } => assert_eq!(*op, Op::Add),
                other => panic!("right operand should be an addition, got {:?}", other),
            }
        }
        other => panic!("predicate should be a comparison, got {:?}", other),
    }
}

// A statement beginning with a digit-prefixed token that is not a valid
// literal fails to parse.

#[test]
fn digit_prefixed_token_is_rejected() {
    assert!(!is_valid_script("dfinity:module:function:alt { 2i; }"));
    assert!(!is_valid_script("dfinity:module:function:alt / 5i < r77 / { }"));
}

// Comments in any whitespace position leave the shape of the tree alone.

fn shape_of(script: &str) -> (String, String, String, String, bool, usize) {
    let ast = get_ast(script).unwrap();
    assert_eq!(ast.len(), 1);
    let AstNode::ProbeDecl { provider, package, event, probe_type, predicate, body, .. } =
        &ast[0];
    (
        provider.clone(),
        package.clone(),
        event.clone(),
        probe_type.clone(),
        predicate.is_some(),
        body.len(),
    )
}

#[test]
fn comments_do_not_alter_the_tree() {
    let bare = shape_of("dfinity:module:function:before { i; }");
    assert_eq!(bare, shape_of("/* c */ dfinity:module:function:before { i; }"));
    assert_eq!(bare, shape_of("dfinity:module:function:before { /* c */ i; }"));
    assert_eq!(bare, shape_of("dfinity:module:function:before { i; /* c */ }"));
    assert_eq!(bare, shape_of("dfinity:module:function:before { i; } // c"));
    assert_eq!(
        bare,
        shape_of("// lead\ndfinity:module:/* mid */function:before { i; // tail\n }")
    );
}

#[test]
fn trailing_comment_without_newline_parses() {
    let a = get_ast("dfinity:module:function:before { i; }").unwrap();
    let b = get_ast("dfinity:module:function:before { i; }// tail").unwrap();
    assert_eq!(a, b);
}

#[test]
fn unterminated_forms_are_rejected() {
    assert!(!is_valid_script("dfinity:module:function:alt /* { }"));
    assert!(!is_valid_script("dfinity:module:function:alt / i == \"x / { }"));
    assert!(!is_valid_script("dfinity:module:function:alt { i "));
}

#[test]
fn parse_error_carries_a_location() {
    let err = whamm::parser::whamm_parser::parse_script(
        "dfinity:module:function:dne { }".to_string(),
    )
    .unwrap_err();
    assert!(err.loc.is_some());
}

#[test]
fn integer_literals_out_of_range_are_rejected() {
    assert!(is_valid_script("BEGIN { i = 2147483647; }"));
    assert!(!is_valid_script("BEGIN { i = 2147483648; }"));
}

#[test]
fn dump_ast_renders_one_line_per_declaration() {
    let ast = get_ast("BEGIN { i; }").unwrap();
    assert_eq!(dump_ast(&ast), "probe core:::begin, body statements: 1\n");
    let ast = get_ast("wasm:bytecode:alt / i / { }").unwrap();
    assert_eq!(dump_ast(&ast), "probe wasm:bytecode:alt: when predicate, body statements: 0\n");
}

#[test]
fn calls_and_parens_parse_inside_predicates() {
    assert!(is_valid_script("BEGIN / strcmp(a, \"x\") / { }"));
    assert!(is_valid_script("BEGIN / (i + 2) * 3 == 9 / { }"));
    assert!(is_valid_script("BEGIN { x = f(); }"));
}

#[test]
fn division_and_predicate_delimiters_coexist() {
    // The `/` before `{` closes the predicate; the inner one divides.
    let ast = get_ast("BEGIN / i / 2 == 3 / { }").unwrap();
    let AstNode::ProbeDecl { predicate, .. } = &ast[0];
    match predicate {
        Some(Expr::BinOp { op, .. }) => assert_eq!(*op, Op::EQ),
        other => panic!("predicate should compare, got {:?}", other),
    }
    // A bare variable predicate still closes correctly.
    assert!(is_valid_script("BEGIN / i / { }"));
}

// Glob metacharacters are legal in specification segments and reach the
// AST verbatim; the final non-empty segment must still be a literal
// probe-type token.

#[test]
fn wildcard_segments_parse_and_survive_verbatim() {
    let ast = get_ast("wasm:bytecode:Mem*:before { }").unwrap();
    let AstNode::ProbeDecl { provider, package, event, probe_type, .. } = &ast[0];
    assert_eq!(provider, "wasm");
    assert_eq!(package, "bytecode");
    assert_eq!(event, "Mem*");
    assert_eq!(probe_type, "before");

    let ast = get_ast("w?sm:byte*:[CB]all:alt { }").unwrap();
    let AstNode::ProbeDecl { provider, package, event, probe_type, .. } = &ast[0];
    assert_eq!(provider, "w?sm");
    assert_eq!(package, "byte*");
    assert_eq!(event, "[CB]all");
    assert_eq!(probe_type, "alt");

    assert!(is_valid_script("*:::begin { }"));
    assert!(is_valid_script("wasm:bytecode:*:alt / i / { i; }"));
}

#[test]
fn wildcards_are_rejected_where_a_probe_type_is_due() {
    // The final non-empty segment must be a recognized probe-type token.
    assert!(!is_valid_script("wasm:bytecode:*:* { }"));
    assert!(!is_valid_script("wasm:bytecode:Mem* { }"));
    assert!(!is_valid_script("*:::* { }"));
}

#[test]
fn wildcards_do_not_leak_into_expressions() {
    // In a predicate or a body, `*` stays multiplication and `?` stays
    // illegal.
    let ast = get_ast("BEGIN { x = a*2; }").unwrap();
    let AstNode::ProbeDecl { body, .. } = &ast[0];
    assert_eq!(body.len(), 1);
    assert!(!is_valid_script("BEGIN { x = a?; }"));
    assert!(!is_valid_script("BEGIN / i[0] / { }"));
}

#[test]
fn unterminated_bracket_class_is_rejected() {
    assert!(!is_valid_script("w[asm:bytecode:Call:alt { }"));
}

#[test]
fn an_error_at_end_of_input_carries_the_end_location() {
    let err = whamm::parser::whamm_parser::parse_script(
        "dfinity:module:function:alt".to_string(),
    )
    .unwrap_err();
    match err.loc {
        Some(loc) => {
            assert_eq!(
                loc.line_col,
                whamm::parser::types::LineColLocation::Pos((1, 28))
            );
        }
        None => panic!("an end-of-input parse error should carry a location"),
    }
}
