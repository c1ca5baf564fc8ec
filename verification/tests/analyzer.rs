use voxc::analyzer::Analyzer;
use voxc::ast::{Expr, FlagValueType, ImportedFunction, Program, SourceLocation, Statement, Type};

fn program(statements: Vec<Statement>) -> Program {
    Program { statements, uses_io: false, uses_heap: false, uses_strings: false, uses_args: false }
}

fn messages(a: &Analyzer) -> Vec<String> {
    a.errors.iter().map(|e| e.message.clone()).collect()
}

fn int_decl(name: &str, n: i64) -> Statement {
    Statement::VarDecl { name: name.to_string(), var_type: Some(Type::Integer), value: Some(Expr::IntegerLit(n)) }
}

fn function(name: &str, body: Vec<Statement>) -> Statement {
    Statement::FunctionDef {
        name: name.to_string(),
        params: vec![],
        return_type: Type::Void,
        body,
        body_ended_early: None,
        body_ended_via_return: None,
    }
}

#[test]
fn break_outside_a_loop_is_refused() {
    let mut a = Analyzer::new();
    let mut p = program(vec![Statement::Break]);
    a.analyze(&mut p);
    assert_eq!(messages(&a), vec!["Break is only valid inside a loop".to_string()]);
}

#[test]
fn continue_outside_a_loop_is_refused() {
    let mut a = Analyzer::new();
    let mut p = program(vec![Statement::Continue]);
    a.analyze(&mut p);
    assert_eq!(messages(&a), vec!["Continue is only valid inside a loop".to_string()]);
}

#[test]
fn break_inside_a_loop_is_accepted() {
    let mut a = Analyzer::new();
    let mut p = program(vec![Statement::While { condition: Expr::BoolLit(true), body: vec![Statement::Break] }]);
    a.analyze(&mut p);
    assert!(a.errors.is_empty());
    assert_eq!(a.loop_depth, 0);
}

#[test]
fn return_outside_a_function_is_refused() {
    let mut a = Analyzer::new();
    let mut p = program(vec![Statement::Return { value: None }]);
    a.analyze(&mut p);
    assert_eq!(messages(&a), vec!["Return is only valid inside a function".to_string()]);
}

#[test]
fn increment_of_an_unknown_name() {
    let mut a = Analyzer::new();
    let mut p = program(vec![Statement::Increment { name: "count".to_string() }]);
    a.analyze(&mut p);
    assert_eq!(messages(&a), vec!["Unknown variable: count".to_string()]);
}

#[test]
fn increment_before_the_declaration() {
    let mut a = Analyzer::new();
    let mut p = program(vec![Statement::Increment { name: "count".to_string() }, int_decl("count", 1)]);
    a.analyze(&mut p);
    assert_eq!(messages(&a), vec!["'count' is used before it is declared".to_string()]);
}

#[test]
fn increment_after_the_declaration() {
    let mut a = Analyzer::new();
    let mut p = program(vec![int_decl("count", 1), Statement::Increment { name: "count".to_string() }]);
    a.analyze(&mut p);
    assert!(a.errors.is_empty());
}

#[test]
fn function_locals_do_not_leak() {
    let mut a = Analyzer::new();
    let mut p = program(vec![
        function("setup", vec![int_decl("inner", 2)]),
        Statement::Increment { name: "inner".to_string() },
    ]);
    a.analyze(&mut p);
    assert_eq!(messages(&a), vec!["Unknown variable: inner".to_string()]);
    assert!(!a.variables.contains("inner"));
}

#[test]
fn if_without_else_declares_nothing_after_it() {
    let mut a = Analyzer::new();
    let mut p = program(vec![
        Statement::If {
            condition: Expr::BoolLit(true),
            then_block: vec![int_decl("maybe", 1)],
            else_if_blocks: vec![],
            else_block: None,
        },
        Statement::Increment { name: "maybe".to_string() },
    ]);
    a.analyze(&mut p);
    assert_eq!(messages(&a), vec!["Unknown variable: maybe".to_string()]);
}

#[test]
fn if_with_else_declaring_on_both_paths() {
    let mut a = Analyzer::new();
    let mut p = program(vec![
        Statement::If {
            condition: Expr::BoolLit(true),
            then_block: vec![int_decl("both", 1)],
            else_if_blocks: vec![],
            else_block: Some(vec![int_decl("both", 2)]),
        },
        Statement::Increment { name: "both".to_string() },
    ]);
    a.analyze(&mut p);
    assert!(a.errors.is_empty());
}

#[test]
fn allocation_marks_the_heap() {
    let mut a = Analyzer::new();
    let mut p = program(vec![Statement::Allocate { name: "block".to_string(), size: Expr::IntegerLit(64) }]);
    a.analyze(&mut p);
    assert!(a.errors.is_empty());
    assert!(p.uses_heap);
}

#[test]
fn free_of_an_unknown_name() {
    let mut a = Analyzer::new();
    let mut p = program(vec![Statement::Free { name: "nothing_here".to_string() }]);
    a.analyze(&mut p);
    assert_eq!(messages(&a), vec!["Freeing unknown variable: nothing_here".to_string()]);
}

#[test]
fn shared_library_refuses_top_level_code() {
    let mut a = Analyzer::new().with_shared_mode(true);
    let mut p = program(vec![Statement::Print { value: Expr::IntegerLit(1) }]);
    a.analyze(&mut p);
    assert_eq!(
        messages(&a),
        vec!["Top-level print statement is not allowed in a shared library: only function definitions, 'Library', and 'see' may appear at the top level.".to_string()]
    );
}

#[test]
fn shared_library_needs_an_identity() {
    let mut a = Analyzer::new().with_shared_mode(true);
    let mut p = program(vec![function("f", vec![])]);
    a.analyze(&mut p);
    assert_eq!(a.errors.len(), 1);
    assert!(a.errors[0].message.starts_with("A shared library must declare its identity"));
}

#[test]
fn shared_library_needs_an_export() {
    let mut a = Analyzer::new().with_shared_mode(true);
    let mut p = program(vec![Statement::LibraryDecl { name: "m".to_string(), version: "1.0".to_string() }]);
    a.analyze(&mut p);
    assert_eq!(a.errors.len(), 1);
    assert!(a.errors[0].message.starts_with("A shared library must export at least one function"));
}

#[test]
fn shared_library_with_identity_and_export() {
    let mut a = Analyzer::new().with_shared_mode(true);
    let mut p = program(vec![
        Statement::LibraryDecl { name: "m".to_string(), version: "1.0".to_string() },
        function("f", vec![]),
    ]);
    a.analyze(&mut p);
    assert!(a.errors.is_empty());
}

#[test]
fn a_new_analyzer_is_empty() {
    let a = Analyzer::new();
    assert!(a.errors.is_empty());
    assert!(!a.shared_mode);
    assert!(!a.in_function_scope);
    assert_eq!(a.loop_depth, 0);
    let a = a.with_source("main.vox", "Print 1.");
    assert_eq!(a.source_file.as_ref().map(|f| f.filename.clone()), Some("main.vox".to_string()));
}

#[test]
fn a_symbol_is_looked_for_interpolated_then_quoted_then_bare() {
    let p = voxc::analyzer::scope::symbol_patterns("count");
    assert_eq!(p, ["{count".to_string(), "\"count\"".to_string(), "count".to_string()]);
}

fn timer_if(then_block: Vec<Statement>, else_block: Option<Vec<Statement>>) -> Statement {
    Statement::If { condition: Expr::BoolLit(true), then_block, else_if_blocks: vec![], else_block }
}

fn timer(name: &str) -> Statement {
    Statement::TimerDecl { name: name.to_string() }
}

#[test]
fn a_timer_declared_only_in_an_if_is_unknown_after_it() {
    let mut a = Analyzer::new();
    a.analyze_statement(&timer_if(vec![timer("t")], None));
    a.analyze_statement(&Statement::TimerStart { name: "t".to_string() });
    assert_eq!(messages(&a), vec!["Unknown timer: t".to_string()]);
}

#[test]
fn a_timer_declared_in_both_branches_can_be_started() {
    let mut a = Analyzer::new();
    a.analyze_statement(&timer_if(vec![timer("t")], Some(vec![timer("t")])));
    a.analyze_statement(&Statement::TimerStart { name: "t".to_string() });
    a.analyze_statement(&Statement::TimerStop { name: "t".to_string() });
    assert!(a.errors.is_empty());
    assert!(a.variables.contains("t"));
}

#[test]
fn a_continue_inside_a_repeat_is_accepted() {
    let mut a = Analyzer::new();
    a.analyze_statement(&Statement::Repeat { count: Expr::IntegerLit(3), body: vec![Statement::Continue] });
    assert!(a.errors.is_empty());
    assert_eq!(a.loop_depth, 0);
    a.analyze_statement(&Statement::Continue);
    assert_eq!(messages(&a), vec!["Continue is only valid inside a loop".to_string()]);
}

#[test]
fn a_return_outside_a_function_has_no_hint() {
    let mut a = Analyzer::new();
    a.analyze_statement(&Statement::Return { value: None });
    assert_eq!(a.errors.len(), 1);
    assert_eq!(a.errors[0].message, "Return is only valid inside a function");
    assert!(a.errors[0].hint.is_none());
}

#[test]
fn starting_or_stopping_something_that_is_not_a_timer() {
    let mut a = Analyzer::new();
    a.analyze_statement(&Statement::GetTime { into: "g".to_string() });
    a.analyze_statement(&Statement::TimerStart { name: "g".to_string() });
    a.analyze_statement(&Statement::TimerStop { name: "g".to_string() });
    assert_eq!(messages(&a), vec!["Start requires a timer: g".to_string(), "Stop requires a timer: g".to_string()]);
}

#[test]
fn decrementing_a_timer_is_refused() {
    let mut a = Analyzer::new();
    a.analyze_statement(&timer("t"));
    a.analyze_statement(&Statement::Decrement { name: "t".to_string() });
    assert_eq!(messages(&a), vec!["Decrement requires a number variable: t".to_string()]);
}

#[test]
fn a_declaration_makes_the_name_available() {
    let mut a = Analyzer::new();
    a.analyze_statement(&int_decl("n", 3));
    assert!(a.is_variable_available("n"));
    assert!(a.warnings.is_empty());
}

#[test]
fn an_empty_program_gets_an_error_only_as_a_shared_library() {
    let mut a = Analyzer::new();
    let mut p = program(vec![]);
    a.analyze(&mut p);
    assert!(a.errors.is_empty());
    let mut b = Analyzer::new().with_shared_mode(true);
    let mut q = program(vec![]);
    b.analyze(&mut q);
    assert_eq!(b.errors.len(), 1);
    assert!(b.errors[0].message.starts_with("A shared library must declare its identity with a `Library` declaration"));
}

#[test]
fn a_second_parse_flags_is_refused() {
    let mut a = Analyzer::new();
    let mut p = program(vec![Statement::ParseFlags, Statement::ParseFlags]);
    a.analyze(&mut p);
    assert_eq!(messages(&a), vec!["Duplicate 'parse flags.' statement".to_string()]);
    assert!(p.uses_args);
}

#[test]
fn a_flag_declared_after_parse_flags_is_refused() {
    let mut a = Analyzer::new();
    let mut p = program(vec![
        Statement::ParseFlags,
        Statement::FlagSchemaDecl { name: "verbose".to_string(), value_type: FlagValueType::Boolean, default: None },
    ]);
    a.analyze(&mut p);
    assert_eq!(messages(&a)[0], "Cannot declare new flags after 'parse flags.'");
}

fn import(name: &str, lib: &str, version: &str) -> ImportedFunction {
    ImportedFunction {
        name: name.to_string(),
        lib: lib.to_string(),
        version: version.to_string(),
        mangled: format!("{}_{}_{}", lib, version, name),
        params: vec![],
        return_type: Type::Void,
    }
}

#[test]
fn a_local_definition_that_shadows_an_import_is_warned_about_once() {
    let mut a = Analyzer::new().with_imports(vec![import("f", "m", "1"), import("g", "m", "1")]);
    let mut p = program(vec![function("f", vec![]), function("f", vec![])]);
    a.analyze(&mut p);
    assert_eq!(
        a.warnings,
        vec![
            "'f' is defined in this program and also exported by library \"m\" version \"1\"; the local definition wins — calls to 'f' resolve to it, not to the library."
                .to_string()
        ]
    );
}

#[test]
fn the_builders_change_only_their_own_field() {
    let a = Analyzer::new().with_source("p.vox", "x").with_shared_mode(true).with_imports(vec![import("f", "m", "1")]);
    assert!(a.shared_mode);
    assert_eq!(a.imports.len(), 1);
    assert_eq!(a.source_file.as_ref().unwrap().filename, "p.vox");
    assert!(a.errors.is_empty());
    assert!(a.used_identifiers.is_empty());
}

#[test]
fn a_return_after_a_blank_line_points_where_the_function_was_closed() {
    let mut a = Analyzer::new();
    a.pending_blank_line_truncation =
        Some(("area".to_string(), vec![], SourceLocation { file: "p.vox".to_string(), line: 7, column: 1 }));
    a.analyze_statement(&Statement::Return { value: None });
    assert_eq!(a.errors.len(), 1);
    let loc = a.errors[0].location.as_ref().unwrap();
    assert_eq!(loc.line, 7);
    assert_eq!(loc.column, 1);
    assert!(a.errors[0].hint.as_ref().unwrap().starts_with("a blank line ended `area`'s body early at line 7"));
}
