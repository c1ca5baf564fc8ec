use voxc::ast::{BinaryOperator, Expr, FloatLiteral, ImportedFunction, Program, Property, Statement, Type, UnaryOperator, VarType};
use voxc::codegen::CodeGenerator;
use voxc::format_spec::{FormatSpec, IntegerBase};
use voxc::symbols::{make_function_label, mangle_symbol};

fn spec(width: Option<i64>, zero_pad: bool, base: IntegerBase, precision: Option<i64>) -> FormatSpec {
    FormatSpec { width, zero_pad, base, precision }
}

fn lit(n: i64) -> Box<Expr> {
    Box::new(Expr::IntegerLit(n))
}

#[test]
fn strings_are_escaped_and_counted() {
    let mut g = CodeGenerator::new();
    let a = g.add_string("it's\n");
    let b = g.add_string("x");
    assert_eq!(a, "str_0");
    assert_eq!(b, "str_1");
    assert_eq!(
        g.data_section,
        vec![
            "    str_0: db 'it', 39, 's', 10, '', 0".to_string(),
            "    str_0_len: equ $ - str_0 - 1".to_string(),
            "    str_1: db 'x', 0".to_string(),
            "    str_1_len: equ $ - str_1 - 1".to_string(),
        ]
    );
}

#[test]
fn the_empty_text_is_defined_once() {
    let mut g = CodeGenerator::new();
    let a = g.get_empty_string_label();
    let b = g.get_empty_string_label();
    assert_eq!(a, b);
    assert_eq!(g.data_section.len(), 2);
}

#[test]
fn fresh_labels_count_up() {
    let mut g = CodeGenerator::new();
    assert_eq!(g.new_label("loop"), "loop_0");
    assert_eq!(g.new_label("loop"), "loop_1");
    assert_eq!(g.new_label("done"), "done_2");
}

#[test]
fn floats_are_written_as_their_bits() {
    let mut g = CodeGenerator::new();
    let label = g.add_float(&FloatLiteral { bits: 1.5f64.to_bits(), text: "1.5".to_string() });
    assert_eq!(label, "float_0");
    assert_eq!(g.data_section, vec!["    float_0: dq 0x3FF8000000000000  ; 1.5".to_string()]);
}

#[test]
fn symbols_are_mangled() {
    assert_eq!(mangle_symbol("my-func.v2"), "my_func_v2");
    assert_eq!(make_function_label(false, None, "area"), "area");
    let lib = ("geo".to_string(), "1.0".to_string());
    assert_eq!(make_function_label(true, Some(&lib), "area"), "geo_1_0_area");
    assert_eq!(make_function_label(false, Some(&lib), "area"), "area");
}

#[test]
fn the_first_import_of_a_name_wins() {
    let mut g = CodeGenerator::new();
    g.set_imports(vec![
        ImportedFunction {
            name: "area".to_string(),
            lib: "geo".to_string(),
            version: "1.0".to_string(),
            mangled: "geo_1_0_area".to_string(),
            params: vec![],
            return_type: Type::Integer,
        },
        ImportedFunction {
            name: "area".to_string(),
            lib: "other".to_string(),
            version: "2.0".to_string(),
            mangled: "other_2_0_area".to_string(),
            params: vec![],
            return_type: Type::Integer,
        },
    ]);
    assert_eq!(g.resolved_call_label("area"), "geo_1_0_area");
    assert_eq!(g.resolved_call_label("local"), "local");
}

#[test]
fn literals_lower_to_one_load() {
    let mut g = CodeGenerator::new();
    assert!(g.generate_expr(&Expr::IntegerLit(-42)));
    assert!(g.generate_expr(&Expr::BoolLit(true)));
    assert!(g.generate_expr(&Expr::StringLit("hi".to_string())));
    assert_eq!(
        g.text,
        vec!["    mov rax, -42".to_string(), "    mov rax, 1".to_string(), "    lea rax, [rel str_0]".to_string()]
    );
}

#[test]
fn integer_addition_checks_operands_and_clears_the_flag() {
    let mut g = CodeGenerator::new();
    let e = Expr::BinaryOp { left: lit(2), op: BinaryOperator::Add, right: lit(3) };
    assert!(g.generate_expr(&e));
    assert!(g.uses_ints);
    assert_eq!(
        g.text,
        vec![
            "    CLEAR_LAST_ERROR  ; clear error before arithmetic".to_string(),
            "    mov rax, 3".to_string(),
            "    push rax".to_string(),
            "    mov rax, 2".to_string(),
            "    pop rbx".to_string(),
            "    INT_ADD".to_string(),
        ]
    );
}

#[test]
fn nothing_in_arithmetic_sets_the_error_flag() {
    let mut g = CodeGenerator::new();
    let e = Expr::BinaryOp { left: lit(2), op: BinaryOperator::Multiply, right: Box::new(Expr::NothingLit) };
    assert!(g.generate_expr(&e));
    assert_eq!(g.text[2], "    SET_LAST_ERROR 1  ; nothing in arithmetic (static)");
}

#[test]
fn comparing_with_nothing_folds_a_known_tag() {
    let mut g = CodeGenerator::new();
    let e = Expr::BinaryOp { left: lit(0), op: BinaryOperator::Equal, right: Box::new(Expr::NothingLit) };
    assert!(g.generate_expr(&e));
    assert_eq!(g.text, vec!["    mov rax, 0  ; is nothing folded (static tag 0)".to_string()]);
    let mut g = CodeGenerator::new();
    let e = Expr::BinaryOp { left: Box::new(Expr::NothingLit), op: BinaryOperator::NotEqual, right: Box::new(Expr::NothingLit) };
    assert!(g.generate_expr(&e));
    assert_eq!(g.text, vec!["    mov rax, 0  ; nothing is nothing".to_string()]);
}

#[test]
fn float_division_converts_a_whole_operand() {
    let mut g = CodeGenerator::new();
    let half = Expr::FloatLit(FloatLiteral { bits: 0.5f64.to_bits(), text: "0.5".to_string() });
    let e = Expr::BinaryOp { left: lit(1), op: BinaryOperator::Divide, right: Box::new(half) };
    assert!(g.generate_expr(&e));
    assert!(g.uses_floats);
    assert_eq!(
        g.text,
        vec![
            "    FLOAT_LOAD float_0".to_string(),
            "    XMM0_TO_RAX".to_string(),
            "    push rax".to_string(),
            "    mov rax, 1".to_string(),
            "    INT_TO_FLOAT".to_string(),
            "    XMM0_TO_RAX".to_string(),
            "    RAX_TO_XMM0".to_string(),
            "    pop rax".to_string(),
            "    RAX_TO_XMM1".to_string(),
            "    FLOAT_DIV".to_string(),
            "    XMM0_TO_RAX".to_string(),
        ]
    );
}

#[test]
fn a_text_never_equals_a_number() {
    let mut g = CodeGenerator::new();
    let e = Expr::BinaryOp { left: Box::new(Expr::StringLit("a".to_string())), op: BinaryOperator::Equal, right: lit(1) };
    assert!(g.generate_expr(&e));
    assert_eq!(g.text, vec!["    mov rax, 0  ; stringy vs non-stringy operand: never equal".to_string()]);
    assert!(g.data_section.is_empty());
}

#[test]
fn text_equality_is_not_lowered_here() {
    let mut g = CodeGenerator::new();
    let e = Expr::BinaryOp {
        left: Box::new(Expr::StringLit("a".to_string())),
        op: BinaryOperator::Equal,
        right: Box::new(Expr::StringLit("b".to_string())),
    };
    assert!(!g.generate_expr(&e));
    assert!(g.text.is_empty());
}

#[test]
fn unknown_names_are_not_lowered() {
    let mut g = CodeGenerator::new();
    assert!(!g.generate_expr(&Expr::Identifier("ghost".to_string())));
    assert!(g.text.is_empty());
}

#[test]
fn negation_and_not() {
    let mut g = CodeGenerator::new();
    assert!(g.generate_expr(&Expr::UnaryOp { op: UnaryOperator::Negate, operand: lit(5) }));
    assert!(g.generate_expr(&Expr::UnaryOp { op: UnaryOperator::Not, operand: Box::new(Expr::BoolLit(false)) }));
    assert_eq!(
        g.text,
        vec![
            "    mov rax, 5".to_string(),
            "    INT_NEG".to_string(),
            "    mov rax, 0".to_string(),
            "    INT_NOT".to_string(),
        ]
    );
}

#[test]
fn empty_text_check_reads_the_first_byte() {
    let mut g = CodeGenerator::new();
    let e = Expr::PropertyCheck { value: Box::new(Expr::StringLit("".to_string())), property: Property::Empty };
    assert!(g.generate_expr(&e));
    assert_eq!(
        g.text,
        vec![
            "    lea rax, [rel str_0]".to_string(),
            "    lea rcx, [rel str_1]  ; \"\" stands in for a null text".to_string(),
            "    test rax, rax".to_string(),
            "    cmovz rax, rcx".to_string(),
            "    movzx rax, byte [rax]  ; first byte: NUL means empty".to_string(),
            "    test rax, rax".to_string(),
            "    setz al".to_string(),
            "    movzx rax, al".to_string(),
        ]
    );
}

#[test]
fn environment_lookup_falls_back_to_the_empty_text() {
    let mut g = CodeGenerator::new();
    let e = Expr::EnvironmentVariable { name: Box::new(Expr::StringLit("HOME".to_string())) };
    assert!(g.generate_expr(&e));
    assert_eq!(
        g.text,
        vec![
            "    lea rax, [rel str_0]".to_string(),
            "    mov rdi, rax".to_string(),
            "    call _get_env".to_string(),
            "    test rax, rax".to_string(),
            "    jz env_missing_0  ; env var not set".to_string(),
            "    CLEAR_LAST_ERROR  ; env var found".to_string(),
            "    jmp env_done_1".to_string(),
            "env_missing_0:".to_string(),
            "    lea rax, [rel str_1]  ; empty text for missing env var".to_string(),
            "    SET_LAST_ERROR 1  ; env var not set".to_string(),
            "env_done_1:".to_string(),
        ]
    );
}

#[test]
fn reaping_a_child() {
    let mut g = CodeGenerator::new();
    assert!(g.generate_expr(&Expr::ReapChild { pid: None, no_hang: true }));
    assert!(g.uses_proc);
    assert_eq!(
        g.text,
        vec![
            "    mov rdi, -1  ; wait for any child".to_string(),
            "    ; wait4() with WNOHANG - non-blocking reap".to_string(),
            "    REAP_CHILD 1".to_string(),
        ]
    );
}

#[test]
fn formatted_values_pick_the_routine_by_type() {
    let mut g = CodeGenerator::new();
    g.emit_formatted_value(Some(VarType::Integer), spec(None, false, IntegerBase::Decimal, None));
    g.emit_formatted_value(Some(VarType::Integer), spec(Some(8), true, IntegerBase::HexUpper, None));
    g.emit_formatted_value(Some(VarType::Text), spec(None, false, IntegerBase::HexLower, None));
    g.emit_formatted_value(Some(VarType::Float), spec(Some(8), false, IntegerBase::Decimal, Some(2)));
    assert_eq!(
        g.text,
        vec![
            "    PRINT_INT rdi".to_string(),
            "    PRINT_HEX_UPPER_ZEROPAD rdi, 8".to_string(),
            "    PRINT_CSTR rdi".to_string(),
            "    movq xmm0, rdi".to_string(),
            "    mov rdi, 2".to_string(),
            "    call _print_float_precision".to_string(),
        ]
    );
    assert!(g.uses_floats);
    assert!(g.uses_format);
}

#[test]
fn a_whole_number_with_places_pads_its_digits() {
    let mut g = CodeGenerator::new();
    g.emit_formatted_value(Some(VarType::Integer), spec(Some(8), false, IntegerBase::Decimal, Some(2)));
    assert_eq!(
        g.text,
        vec![
            "    PRINT_INT_PADDED rdi, 5".to_string(),
            "    PRINT_STR str_0, str_0_len".to_string(),
            "    PRINT_INT_ZEROPAD 0, 2".to_string(),
        ]
    );
    assert_eq!(g.data_section[0], "    str_0: db '.', 0");
}

#[test]
fn a_buffer_prints_by_length_only_without_a_spec() {
    let mut g = CodeGenerator::new();
    g.emit_formatted_value(Some(VarType::Buffer), spec(None, false, IntegerBase::Decimal, None));
    g.emit_formatted_value(Some(VarType::Buffer), spec(Some(4), false, IntegerBase::Decimal, None));
    assert_eq!(g.text, vec!["    PRINT_BUF rdi".to_string(), "    PRINT_CSTR rdi".to_string()]);
    assert!(!g.uses_format);
}

#[test]
fn variables_load_from_their_slot_or_label() {
    let mut g = CodeGenerator::new();
    let off = g.alloc_var("x");
    assert_eq!(off, 8);
    g.ensure_global_var_label("y");
    assert!(g.generate_expr(&Expr::Identifier("x".to_string())));
    assert!(g.generate_expr(&Expr::Identifier("y".to_string())));
    assert_eq!(g.text, vec!["    mov rax, [rbp-8]".to_string(), "    mov rax, [rel gvar_0]".to_string()]);
    assert_eq!(g.bss_section, vec!["    gvar_0: resq 1".to_string()]);
}

#[test]
fn a_type_predicate_on_a_literal_is_folded() {
    let mut g = CodeGenerator::new();
    let e = Expr::TypeCheck { value: Box::new(Expr::IntegerLit(3)), type_noun: Type::Integer };
    assert!(g.generate_expr(&e));
    assert_eq!(g.text, vec!["    mov rax, 1  ; is a number folded (static tag 0)".to_string()]);
    let mut h = CodeGenerator::new();
    let f = Expr::TypeCheck { value: Box::new(Expr::BoolLit(true)), type_noun: Type::Text };
    assert!(h.generate_expr(&f));
    assert_eq!(h.text, vec!["    mov rax, 0  ; is a text folded (static tag 3)".to_string()]);
}

#[test]
fn a_type_predicate_on_a_value_reads_its_tag() {
    let mut g = CodeGenerator::new();
    g.alloc_var("v");
    g.variable_types.insert("v".to_string(), VarType::Mixed);
    g.mixed_tag_slots.insert("v".to_string(), 16);
    let e = Expr::TypeCheck { value: Box::new(Expr::Identifier("v".to_string())), type_noun: Type::Float };
    assert!(g.generate_expr(&e));
    assert_eq!(
        g.text,
        vec![
            "    mov rax, [rbp-8]".to_string(),
            "    movzx r11, byte [rbp-16]  ; load mixed element tag".to_string(),
            "    xor rax, rax".to_string(),
            "    TAG_EQ_IMM 2  ; is a float?".to_string(),
        ]
    );
}

#[test]
fn a_type_predicate_on_a_non_scalar_noun_is_not_lowered() {
    let mut g = CodeGenerator::new();
    let e = Expr::TypeCheck { value: Box::new(Expr::IntegerLit(3)), type_noun: Type::Buffer };
    assert!(!g.generate_expr(&e));
    assert!(g.text.is_empty());
}

#[test]
fn a_text_is_cast_to_a_number_by_parsing() {
    let mut g = CodeGenerator::new();
    let e = Expr::Cast { value: Box::new(Expr::StringLit("12".to_string())), target_type: Type::Integer, radix: 10 };
    assert!(g.generate_expr(&e));
    assert_eq!(
        g.text,
        vec![
            "    lea rax, [rel str_0]".to_string(),
            "    mov rdi, rax".to_string(),
            "    call _parse_i64".to_string(),
        ]
    );
    assert!(g.uses_ints);
}

#[test]
fn a_text_is_cast_to_a_number_in_another_radix() {
    let mut g = CodeGenerator::new();
    let e = Expr::Cast { value: Box::new(Expr::StringLit("ff".to_string())), target_type: Type::Integer, radix: 16 };
    assert!(g.generate_expr(&e));
    assert_eq!(g.text[1], "    mov rdi, rax");
    assert_eq!(g.text[2], "    mov rsi, 16");
    assert_eq!(g.text[3], "    call _parse_int_radix");
}

#[test]
fn a_buffer_is_cast_to_a_float_bounded_by_its_length() {
    let mut g = CodeGenerator::new();
    g.alloc_var("b");
    g.variable_types.insert("b".to_string(), VarType::Buffer);
    let e = Expr::Cast { value: Box::new(Expr::Identifier("b".to_string())), target_type: Type::Float, radix: 10 };
    assert!(g.generate_expr(&e));
    assert_eq!(
        g.text,
        vec![
            "    mov rax, [rbp-8]".to_string(),
            "    push rbx".to_string(),
            "    push r12".to_string(),
            "    mov rbx, rax  ; save buffer pointer".to_string(),
            "    mov rdi, rbx".to_string(),
            "    call _buffer_length".to_string(),
            "    mov r12, rax  ; save length".to_string(),
            "    mov rdi, rbx".to_string(),
            "    call _buffer_data".to_string(),
            "    mov rdi, rax".to_string(),
            "    mov rsi, r12  ; max length".to_string(),
            "    call _parse_f64_bounded".to_string(),
            "    pop r12".to_string(),
            "    pop rbx".to_string(),
        ]
    );
    assert!(g.uses_floats && g.uses_buffers);
}

#[test]
fn a_number_is_cast_to_a_float_and_a_float_truncated_back() {
    let mut g = CodeGenerator::new();
    let e = Expr::Cast { value: lit(7), target_type: Type::Float, radix: 10 };
    assert!(g.generate_expr(&e));
    assert_eq!(
        g.text,
        vec![
            "    mov rax, 7".to_string(),
            "    ; Cast integer to float".to_string(),
            "    cvtsi2sd xmm0, rax".to_string(),
            "    XMM0_TO_RAX".to_string(),
        ]
    );
    let mut h = CodeGenerator::new();
    let back = Expr::Cast { value: Box::new(e), target_type: Type::Integer, radix: 10 };
    assert!(h.generate_expr(&back));
    assert_eq!(h.text[4], "    ; Cast float to integer");
    assert_eq!(h.text[5], "    RAX_TO_XMM0");
    assert_eq!(h.text[6], "    cvttsd2si rax, xmm0");
}

#[test]
fn a_text_is_cast_to_a_boolean_by_its_words() {
    let mut g = CodeGenerator::new();
    let e = Expr::Cast { value: Box::new(Expr::StringLit("yes".to_string())), target_type: Type::Boolean, radix: 10 };
    assert!(g.generate_expr(&e));
    assert_eq!(
        g.text,
        vec![
            "    lea rax, [rel str_0]".to_string(),
            "    ; Cast text/buffer to boolean".to_string(),
            "    test rax, rax".to_string(),
            "    jz bool_null_0".to_string(),
            "    mov rdi, rax".to_string(),
            "    call _text_to_boolean".to_string(),
            "    jmp bool_done_1".to_string(),
            "bool_null_0:".to_string(),
            "    xor rax, rax".to_string(),
            "bool_done_1:".to_string(),
        ]
    );
    let mut h = CodeGenerator::new();
    assert!(h.generate_expr(&Expr::Cast { value: lit(2), target_type: Type::Boolean, radix: 10 }));
    assert_eq!(h.text[1], "    ; Cast to boolean");
    assert_eq!(h.text[2], "    BOOL_FROM_RAX");
}

#[test]
fn a_cast_to_a_collection_is_a_no_op_and_a_number_to_text_is_not_lowered() {
    let mut g = CodeGenerator::new();
    let e = Expr::Cast { value: lit(2), target_type: Type::List(Box::new(Type::Unknown)), radix: 10 };
    assert!(g.generate_expr(&e));
    assert_eq!(g.text[1], "    ; Cast (no-op)");
    let mut h = CodeGenerator::new();
    assert!(!h.generate_expr(&Expr::Cast { value: lit(2), target_type: Type::Text, radix: 10 }));
    assert!(h.text.is_empty());
}

#[test]
fn a_number_treating_is_compared_in_registers() {
    let mut g = CodeGenerator::new();
    let e = Expr::TreatingAs { value: lit(1), match_value: lit(1), replacement: lit(9) };
    assert!(g.generate_expr(&e));
    assert_eq!(
        g.text,
        vec![
            "    mov rax, 1".to_string(),
            "    push rax  ; save original value".to_string(),
            "    mov rax, 1".to_string(),
            "    mov rbx, rax  ; match value".to_string(),
            "    pop rax  ; restore original value".to_string(),
            "    cmp rax, rbx".to_string(),
            "    jne treating_skip_0".to_string(),
            "    mov rax, 9".to_string(),
            "    jmp treating_done_1".to_string(),
            "treating_skip_0:".to_string(),
            "treating_done_1:".to_string(),
        ]
    );
}

#[test]
fn a_text_treating_is_compared_by_bytes() {
    let mut g = CodeGenerator::new();
    let e = Expr::TreatingAs {
        value: Box::new(Expr::StringLit("a".to_string())),
        match_value: Box::new(Expr::StringLit("b".to_string())),
        replacement: Box::new(Expr::StringLit("c".to_string())),
    };
    assert!(g.generate_expr(&e));
    assert_eq!(
        g.text,
        vec![
            "    lea rax, [rel str_0]".to_string(),
            "    push rax  ; save original value (struct ptr if buffer)".to_string(),
            "    mov rdi, rax  ; comparison ptr in rdi".to_string(),
            "    lea rax, [rel str_1]".to_string(),
            "    mov rsi, rax  ; match value in rsi".to_string(),
            "    call _str_eq".to_string(),
            "    test rax, rax".to_string(),
            "    jz treating_skip_0".to_string(),
            "    add rsp, 8  ; discard saved value".to_string(),
            "    lea rax, [rel str_2]".to_string(),
            "    jmp treating_done_1".to_string(),
            "treating_skip_0:".to_string(),
            "    pop rax  ; restore original value".to_string(),
            "treating_done_1:".to_string(),
        ]
    );
    assert!(g.uses_strings);
}

#[test]
fn a_text_treating_a_number_match_stays_in_registers() {
    let mut g = CodeGenerator::new();
    let e = Expr::TreatingAs {
        value: Box::new(Expr::StringLit("a".to_string())),
        match_value: lit(98),
        replacement: Box::new(Expr::StringLit("c".to_string())),
    };
    assert!(g.generate_expr(&e));
    assert_eq!(g.text[1], "    push rax  ; save original value");
    assert_eq!(g.text[3], "    mov rbx, rax  ; match value");
    assert!(!g.uses_strings);
}

#[test]
fn signatures_are_filed_under_their_labels_and_imports_under_their_symbols() {
    let f = Statement::FunctionDef {
        name: "area".to_string(),
        params: vec![("w".to_string(), Type::Integer)],
        return_type: Type::Float,
        body: vec![],
        body_ended_early: None,
        body_ended_via_return: None,
    };
    let program = Program { statements: vec![f], uses_io: false, uses_heap: false, uses_strings: false, uses_args: false };
    let mut g = CodeGenerator::new();
    g.collect_function_signatures(&program);
    let label = mangle_symbol("area");
    assert!(matches!(g.function_return_types.get(label.as_str()), Some(VarType::Float)));
    assert!(matches!(g.function_return_full_types.get(label.as_str()), Some(Type::Float)));
    assert_eq!(g.function_param_types.get(label.as_str()).unwrap().len(), 1);
}

fn def(name: &str, params: Vec<(String, Type)>, return_type: Type, body: Vec<Statement>) -> Statement {
    Statement::FunctionDef {
        name: name.to_string(),
        params,
        return_type,
        body,
        body_ended_early: None,
        body_ended_via_return: None,
    }
}

#[test]
fn a_function_defined_inside_a_block_gets_its_signature_too() {
    let inner = def("inner", vec![("a".to_string(), Type::Text), ("b".to_string(), Type::Integer)], Type::Text, vec![]);
    let guarded = Statement::If {
        condition: Expr::BoolLit(true),
        then_block: vec![],
        else_if_blocks: vec![(Expr::BoolLit(false), vec![inner])],
        else_block: None,
    };
    let program = Program { statements: vec![guarded], uses_io: false, uses_heap: false, uses_strings: false, uses_args: false };
    let mut g = CodeGenerator::new();
    g.collect_function_signatures(&program);
    let label = mangle_symbol("inner");
    assert!(matches!(g.function_return_full_types.get(label.as_str()), Some(Type::Text)));
    let params = g.function_param_types.get(label.as_str()).unwrap();
    assert_eq!(params.len(), 2);
    assert!(matches!(params[0], Type::Text));
    assert!(matches!(params[1], Type::Integer));
    assert!(g.library_blocks.is_empty());
}

#[test]
fn a_shared_library_lists_its_top_level_functions_per_identity() {
    let lib = Statement::LibraryDecl { name: "m".to_string(), version: "1".to_string() };
    let nested = def("helper", vec![], Type::Integer, vec![]);
    let f = def("f", vec![("x".to_string(), Type::Integer)], Type::Integer, vec![nested]);
    let h = def("h", vec![], Type::Text, vec![]);
    let program =
        Program { statements: vec![lib, f, h], uses_io: false, uses_heap: false, uses_strings: false, uses_args: false };
    let mut g = CodeGenerator::new();
    g.shared_lib_mode = true;
    g.collect_function_signatures(&program);
    assert_eq!(g.library_blocks.len(), 1);
    let block = &g.library_blocks[0];
    assert_eq!(block.lib, "m");
    assert_eq!(block.version, "1");
    let names: Vec<&str> = block.funcs.iter().map(|f| f.name.as_str()).collect();
    assert_eq!(names, vec!["f", "h"]);
    let identity = ("m".to_string(), "1".to_string());
    let helper = make_function_label(true, Some(&identity), "helper");
    assert!(matches!(g.function_return_types.get(helper.as_str()), Some(VarType::Integer)));
}

fn imported(name: &str, mangled: &str) -> ImportedFunction {
    ImportedFunction {
        name: name.to_string(),
        lib: "geo".to_string(),
        version: "1.0".to_string(),
        mangled: mangled.to_string(),
        params: vec![],
        return_type: Type::Integer,
    }
}

#[test]
fn each_imported_symbol_is_declared_once_in_first_seen_order() {
    let mut g = CodeGenerator::new();
    g.set_imports(vec![
        imported("b", "geo_1_0_b"),
        imported("a", "geo_1_0_a"),
        imported("b2", "geo_1_0_b"),
    ]);
    assert_eq!(g.imported_symbols, vec!["geo_1_0_b".to_string(), "geo_1_0_a".to_string()]);
    assert_eq!(g.imports.len(), 3);
}

#[test]
fn a_cast_to_a_number_dispatches_on_the_tag_and_ends_at_one_label() {
    let mut g = CodeGenerator::new();
    g.emit_scalar_cast_from_runtime_tag(&Type::Integer);
    let t = &g.text;
    assert_eq!(t[0], "    cmp r11, 0  ; integer?");
    assert_eq!(t[1], "    je vr_int_0");
    assert_eq!(t[8], "    jmp vr_fail_4");
    assert_eq!(t[9], "vr_int_0:");
    assert_eq!(t[10], "    ; integer -> integer (no-op)");
    assert_eq!(t[11], "    mov r11b, 0  ; new tag");
    assert_eq!(t[12], "    jmp vr_done_6");
    assert_eq!(t[13], "vr_flt_1:");
    assert_eq!(t[14], "    ; float -> integer");
    assert_eq!(t[15], "    RAX_TO_XMM0");
    assert_eq!(t[16], "    cvttsd2si rax, xmm0");
    assert_eq!(t[t.len() - 5], "    ; unsupported source tag for cast");
    assert_eq!(t[t.len() - 4], "    xor rax, rax");
    assert_eq!(t[t.len() - 3], "    SET_LAST_ERROR 1");
    assert_eq!(t[t.len() - 2], "    mov r11b, 0  ; new tag");
    assert_eq!(t[t.len() - 1], "vr_done_6:");
    assert!(g.uses_floats && g.uses_ints);
    assert_eq!(g.label_counter, 7);
}

#[test]
fn a_cast_to_text_formats_numbers_into_buffers_and_picks_boolean_words() {
    let mut g = CodeGenerator::new();
    g.emit_scalar_cast_from_runtime_tag(&Type::Text);
    let t = &g.text;
    assert_eq!(t[10], "    ; integer -> text");
    assert_eq!(t[14], "    mov [rbp-8], rax  ; format buffer");
    assert!(t.contains(&"    mov [rbp-16], rax  ; format buffer".to_string()));
    assert!(t.contains(&"    lea rax, [rel str_1]".to_string()));
    assert!(t.contains(&"    lea rax, [rel str_0]".to_string()));
    assert!(t.contains(&"    lea rax, [rel str_2]  ; empty text on failure".to_string()));
    assert_eq!(t[t.len() - 1], "vr_done_6:");
    assert_eq!(g.stack_offset, 16);
    assert_eq!(g.label_counter, 9);
    assert!(g.uses_buffers);
}

#[test]
fn a_cast_to_a_collection_is_refused_without_minting_a_label() {
    let mut g = CodeGenerator::new();
    g.emit_scalar_cast_from_runtime_tag(&Type::Buffer);
    assert_eq!(
        g.text,
        vec!["    ; scalar cast to non-scalar target is unsupported".to_string(), "    SET_LAST_ERROR 1".to_string()]
    );
    assert_eq!(g.label_counter, 0);
    assert!(!g.uses_floats);
}
