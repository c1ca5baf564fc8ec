use voxc::ast::{Expr, FlagValueType, Statement, Type, VarType};
use voxc::names::sorted_names;
use voxc::text::str_less;
use voxc::codegen::{ClauseTag, CodeGenerator, RuntimeTagSource, VarTarget};

fn lines(v: &[&str]) -> Vec<String> {
    v.iter().map(|s| s.to_string()).collect()
}

#[test]
fn a_text_defaults_to_the_shared_empty_text() {
    let mut g = CodeGenerator::new();
    g.emit_type_default(&Type::Text, &VarTarget::Local(8), "t");
    assert_eq!(g.text, lines(&["    lea rax, [rel str_0]  ; empty text", "    mov [rbp-8], rax  ; store text t"]));
    assert_eq!(g.data_section, lines(&["    str_0: db '', 0", "    str_0_len: equ $ - str_0 - 1"]));
}

#[test]
fn a_float_defaults_to_zero() {
    let mut g = CodeGenerator::new();
    g.emit_type_default(&Type::Float, &VarTarget::Local(16), "f");
    assert_eq!(
        g.text,
        lines(&["    FLOAT_LOAD float_0", "    XMM0_TO_RAX", "    mov [rbp-16], rax  ; store float f"])
    );
    assert_eq!(g.data_section, lines(&["    float_0: dq 0x0000000000000000  ; 0"]));
    assert!(g.uses_floats);
}

#[test]
fn a_list_defaults_to_a_new_empty_list() {
    let mut g = CodeGenerator::new();
    g.emit_type_default(&Type::List(Box::new(Type::Unknown)), &VarTarget::Global("gvar_3".to_string()), "xs");
    assert_eq!(
        g.text,
        lines(&[
            "    ; List literal with 0 elements (capacity 8)",
            "    HEAP_ALLOC 96  ; size; returns ptr or 0",
            "    test rax, rax  ; HEAP_ALLOC returns 0 on failure",
            "    jnz list_mmap_ok_0",
            "    EXIT 1",
            "list_mmap_ok_0:",
            "    push rax  ; save list pointer",
            "    mov qword [rax], 8  ; capacity",
            "    mov qword [rax + 8], 0  ; length",
            "    mov qword [rax + 16], 8  ; element size",
            "    pop rax  ; list pointer in rax",
            "    mov [rel gvar_3], rax  ; global store list xs",
        ])
    );
    assert!(g.uses_lists);
    assert!(g.uses_heap);
}

#[test]
fn a_map_defaults_to_a_new_empty_map() {
    let mut g = CodeGenerator::new();
    g.emit_type_default(&Type::Dict(Box::new(Type::Unknown)), &VarTarget::Local(8), "m");
    assert_eq!(
        g.text,
        lines(&[
            "    ; Map literal with 0 pair(s)",
            "    mov rdi, 8  ; capacity hint",
            "    call _map_new",
            "    push rax  ; save map pointer",
            "    pop rax  ; final map pointer in rax",
            "    mov [rbp-8], rax  ; store map m",
        ])
    );
    assert!(g.uses_maps);
}

#[test]
fn a_global_buffer_is_allocated_and_recorded() {
    let mut g = CodeGenerator::new();
    g.emit_type_default(&Type::Buffer, &VarTarget::Global("gvar_0".to_string()), "b");
    assert_eq!(
        g.text,
        lines(&[
            "    mov rdi, 1024  ; default buffer size",
            "    call _alloc_buffer",
            "    mov [rel gvar_0], rax  ; global store buffer b",
        ])
    );
    assert!(g.uses_buffers);
    assert!(g.initialized_globals.contains("b"));
    let mut h = CodeGenerator::new();
    h.emit_type_default(&Type::Buffer, &VarTarget::Local(8), "b");
    assert!(!h.initialized_globals.contains("b"));
}

#[test]
fn a_value_defaults_to_nothing_with_its_tag() {
    let mut g = CodeGenerator::new();
    g.mixed_tag_slots.insert("v".to_string(), 16);
    g.emit_type_default(&Type::Value, &VarTarget::Local(8), "v");
    assert_eq!(
        g.text,
        lines(&[
            "    mov rax, 0  ; nothing payload",
            "    mov [rbp-8], rax  ; store value v",
            "    mov byte [rbp-16], 6  ; value local tag = nothing",
        ])
    );
}

#[test]
fn other_types_default_to_zero() {
    let mut g = CodeGenerator::new();
    g.emit_type_default(&Type::Integer, &VarTarget::Local(8), "n");
    assert_eq!(g.text, lines(&["    xor rax, rax", "    mov [rbp-8], rax  ; store n"]));
}

#[test]
fn empty_values_by_slot_type() {
    let mut g = CodeGenerator::new();
    assert!(!g.emit_empty_value_for(VarType::Integer));
    assert!(g.text.is_empty());
    assert!(g.emit_empty_value_for(VarType::Text));
    assert!(g.emit_empty_value_for(VarType::Text));
    assert_eq!(g.text.len(), 2);
    assert_eq!(g.data_section.len(), 2);
}

#[test]
fn static_types_are_named_at_compile_time() {
    let mut g = CodeGenerator::new();
    g.declared_types.insert("n".to_string(), Type::Integer);
    g.emit_type_property("n");
    assert_eq!(g.text, lines(&["    lea rax, [rel str_0]  ; n's type: Number (static)"]));
    assert_eq!(g.data_section[0], "    str_0: db 'Number (static)', 0");
}

#[test]
fn a_value_is_named_by_its_runtime_tag() {
    let mut g = CodeGenerator::new();
    g.alloc_var("v");
    g.variable_types.insert("v".to_string(), VarType::Mixed);
    g.declared_types.insert("v".to_string(), Type::Value);
    g.mixed_tag_slots.insert("v".to_string(), 16);
    g.emit_type_property("v");
    assert_eq!(g.text[0], "    movzx r11, byte [rbp-16]  ; value tag (shadow slot)");
    assert_eq!(g.text[1], "    cmp r11, 0  ; Number?");
    assert_eq!(g.text[2], "    je type_case_0_0");
    assert_eq!(g.text[13], "    cmp r11, 6  ; Nothing?");
    assert_eq!(g.text[14], "    je type_case_6_6");
    assert_eq!(g.text[15], "    jmp type_unknown_7");
    assert_eq!(g.text[16], "type_case_0_0:");
    assert_eq!(g.text[17], "    lea rax, [rel str_0]  ; v's type: Number (dynamic)");
    assert_eq!(g.text[18], "    jmp type_done_8");
    assert_eq!(g.text.last().unwrap(), "type_done_8:");
    assert_eq!(g.data_section.len(), 16);
}

#[test]
fn owned_text_store_frees_the_old_string_first() {
    let mut g = CodeGenerator::new();
    g.ensure_global_var_label("t");
    let source = Expr::StringLit("x".to_string());
    g.emit_owned_text_global_store("t", "gvar_0", &source);
    assert!(g.uses_buffers);
    assert_eq!(
        g.text,
        lines(&[
            "    push rax  ; new value for t, across its old one's free check",
            "    cmp byte [rel gvar_0_owned], 0  ; was the current t owned?",
            "    je text_not_owned_0",
            "    mov rdi, [rel gvar_0]  ; the string t no longer holds",
            "    sub rdi, 24  ; text data pointer -> its buffer struct",
            "    call _free_buffer  ; the old string goes back to the heap",
            "text_not_owned_0:",
            "    pop rax  ; restore the new value",
            "    mov [rel gvar_0], rax",
            "    mov byte [rel gvar_0_owned], 0  ; t owned flag",
        ])
    );
    assert_eq!(g.bss_section, lines(&["    gvar_0: resq 1", "    gvar_0_owned: resb 1"]));
}

#[test]
fn which_text_writes_are_owned() {
    let mut g = CodeGenerator::new();
    g.variable_types.insert("b".to_string(), VarType::Buffer);
    assert!(g.text_write_is_owned(&Expr::FormatString { parts: vec![] }));
    assert!(g.text_write_is_owned(&Expr::Identifier("b".to_string())));
    assert!(!g.text_write_is_owned(&Expr::StringLit("s".to_string())));
    assert!(g.text_write_is_owned(&Expr::Cast { value: Box::new(Expr::IntegerLit(1)), target_type: Type::Text, radix: 10 }));
    assert!(!g.text_write_is_owned(&Expr::Cast {
        value: Box::new(Expr::StringLit("s".to_string())),
        target_type: Type::Text,
        radix: 10,
    }));
}

#[test]
fn untyped_declarations_take_the_value_type() {
    let mut g = CodeGenerator::new();
    g.declare_untyped_from_value("flag", &Expr::BoolLit(true));
    g.declare_untyped_from_value("n", &Expr::IntegerLit(3));
    g.declare_untyped_from_value("t", &Expr::StringLit("s".to_string()));
    assert_eq!(g.variable_types.get("flag"), Some(&VarType::Boolean));
    assert_eq!(g.variable_types.get("n"), Some(&VarType::Integer));
    assert_eq!(g.variable_types.get("t"), Some(&VarType::Text));
    assert!(matches!(g.declared_types.get("flag"), Some(Type::Boolean)));
    g.declare_untyped_from_value("n", &Expr::StringLit("again".to_string()));
    assert_eq!(g.variable_types.get("n"), Some(&VarType::Integer));
}

#[test]
fn tags_go_into_r11() {
    let mut g = CodeGenerator::new();
    g.emit_tag_into_r11(&ClauseTag::Static(2), "match");
    g.emit_tag_into_r11(&ClauseTag::Runtime(RuntimeTagSource::ShadowSlot(24)), "subject");
    g.emit_tag_into_r11(&ClauseTag::Runtime(RuntimeTagSource::R11), "replacement");
    assert_eq!(
        g.text,
        lines(&["    mov r11, 2  ; match tag", "    movzx r11, byte [rbp-24]  ; subject tag (shadow slot)"])
    );
}

#[test]
fn treating_a_value_compares_tags_first() {
    let mut g = CodeGenerator::new();
    g.alloc_var("v");
    g.variable_types.insert("v".to_string(), VarType::Mixed);
    g.mixed_tag_slots.insert("v".to_string(), 16);
    assert!(g.generate_treating_on_tagged_subject(&Expr::Identifier("v".to_string()), &Expr::IntegerLit(3), &Expr::IntegerLit(4)));
    assert_eq!(
        g.text,
        lines(&[
            "    mov rax, [rbp-8]",
            "    movzx r11, byte [rbp-16]  ; subject tag (shadow slot)",
            "    push rax  ; subject value",
            "    push r11  ; subject tag",
            "    cmp r11, 0  ; subject tag == match tag?",
            "    jne treating_tagged_skip_0  ; different types can never be equal",
            "    mov rax, 3",
            "    mov rbx, rax  ; match value",
            "    mov rax, [rsp+8]  ; subject value",
            "    cmp rax, rbx",
            "    jne treating_tagged_skip_0",
            "    add rsp, 16  ; discard the saved subject",
            "    mov rax, 4",
            "    mov r11, 0  ; replacement tag",
            "    jmp treating_tagged_done_1",
            "treating_tagged_skip_0:",
            "    pop r11  ; subject tag",
            "    pop rax  ; subject value",
            "treating_tagged_done_1:",
        ])
    );
}

#[test]
fn a_value_is_retyped_in_place_through_its_tag() {
    let mut g = CodeGenerator::new();
    g.alloc_var("v");
    g.variable_types.insert("v".to_string(), VarType::Mixed);
    g.mixed_tag_slots.insert("v".to_string(), 16);
    g.emit_value_retype("v", &Type::Integer);
    assert_eq!(g.text[0], "    ; in-place retype of 'v' to number");
    assert_eq!(g.text[1], "    mov rax, [rbp-8]  ; value payload");
    assert_eq!(g.text[2], "    movzx r11, byte [rbp-16]  ; value tag (shadow slot)");
    assert_eq!(g.text[3], "    cmp r11, 0  ; integer?");
    assert_eq!(g.text[4], "    je vr_int_0");
    let n = g.text.len();
    assert_eq!(g.text[n - 3], "vr_done_6:");
    assert_eq!(g.text[n - 2], "    mov [rbp-8], rax  ; updated payload");
    assert_eq!(g.text[n - 1], "    mov byte [rbp-16], r11b  ; updated tag");
}

#[test]
fn a_retype_to_a_list_is_refused() {
    let mut g = CodeGenerator::new();
    g.emit_value_retype("v", &Type::List(Box::new(Type::Unknown)));
    assert_eq!(
        g.text,
        lines(&["    ; value retype to non-scalar target is unsupported", "    SET_LAST_ERROR 1"])
    );
}

#[test]
fn a_retype_of_an_unknown_name_is_refused() {
    let mut g = CodeGenerator::new();
    g.emit_value_retype("nobody", &Type::Text);
    assert_eq!(g.text, lines(&["    ; value retype target variable not found", "    SET_LAST_ERROR 1"]));
}

#[test]
fn a_retype_of_a_name_without_a_tag_slot_is_refused() {
    let mut g = CodeGenerator::new();
    g.ensure_global_var_label("n");
    g.emit_value_retype("n", &Type::Float);
    assert_eq!(g.text, lines(&["    ; value retype target has no tag slot", "    SET_LAST_ERROR 1"]));
}

#[test]
fn a_top_level_buffer_argument_hands_over_its_mirror() {
    let mut g = CodeGenerator::new();
    g.alloc_var("b");
    g.ensure_global_var_label("b");
    let fixup = g.emit_buffer_arg_cell_address(&Expr::Identifier("b".to_string()));
    assert_eq!(g.text, lines(&["    lea rax, [rel gvar_0]  ; the cell holding b"]));
    g.emit_buffer_arg_fixups(fixup.into_iter().collect());
    assert_eq!(
        g.text,
        lines(&[
            "    lea rax, [rel gvar_0]  ; the cell holding b",
            "    mov rcx, [rel gvar_0]  ; the buffer may have moved",
            "    mov [rbp-8], rcx  ; the top level's copy follows it",
        ])
    );
}

#[test]
fn a_buffer_parameter_argument_hands_over_its_owners_cell() {
    let mut g = CodeGenerator::new();
    g.in_function_codegen = true;
    g.alloc_var("b");
    g.buffer_param_cells.insert(8, 32);
    let fixup = g.emit_buffer_arg_cell_address(&Expr::Identifier("b".to_string()));
    assert_eq!(g.text, lines(&["    mov rax, [rbp-32]  ; where b's owner keeps it"]));
    g.emit_buffer_arg_fixups(fixup.into_iter().collect());
    assert_eq!(g.text[1], "    mov rcx, [rbp-32]  ; where this buffer's owner keeps it");
    assert_eq!(g.text[2], "    mov rcx, [rcx]  ; the buffer may have moved");
    assert_eq!(g.text[3], "    mov [rbp-8], rcx  ; this frame's copy follows it");
}

#[test]
fn a_local_buffer_argument_hands_over_its_slot() {
    let mut g = CodeGenerator::new();
    g.in_function_codegen = true;
    g.alloc_var("b");
    let fixup = g.emit_buffer_arg_cell_address(&Expr::Identifier("b".to_string()));
    assert!(fixup.is_none());
    assert_eq!(g.text, lines(&["    lea rax, [rbp-8]  ; the cell holding b"]));
}

#[test]
fn an_unnamed_buffer_argument_gets_a_cell_of_its_own() {
    let mut g = CodeGenerator::new();
    let fixup = g.emit_buffer_arg_cell_address(&Expr::IntegerLit(5));
    assert!(fixup.is_none());
    assert_eq!(g.stack_offset, 8);
    assert_eq!(
        g.text,
        lines(&[
            "    mov rax, 5",
            "    mov [rbp-8], rax  ; a cell for a buffer argument with no name",
            "    lea rax, [rbp-8]",
        ])
    );
}

#[test]
fn globals_are_seeded_with_their_declared_types() {
    let mut g = CodeGenerator::new();
    g.global_var_types.insert("names".to_string(), Type::List(Box::new(Type::Unknown)));
    g.global_list_element_types.insert("names".to_string(), VarType::Text);
    g.global_var_types.insert("total".to_string(), Type::Integer);
    g.global_var_types.insert("shadowed".to_string(), Type::Text);
    g.variable_types.insert("shadowed".to_string(), VarType::Integer);
    g.seed_global_var_types();
    assert!(matches!(g.variable_types.get("names"), Some(VarType::List)));
    assert!(matches!(g.list_element_types.get("names"), Some(VarType::Text)));
    assert!(matches!(g.variable_types.get("total"), Some(VarType::Integer)));
    assert!(matches!(g.declared_types.get("total"), Some(Type::Integer)));
    assert!(matches!(g.variable_types.get("shadowed"), Some(VarType::Integer)));
    assert!(g.declared_types.get("shadowed").is_none());
    assert!(g.forward_typed_globals.contains("names"));
    assert!(g.forward_typed_globals.contains("total"));
    assert!(!g.forward_typed_globals.contains("shadowed"));
}

#[test]
fn names_sort_in_dictionary_order_once_each() {
    let v: Vec<String> = vec!["total".to_string(), "b".to_string(), "ab".to_string(), "b".to_string(), "a".to_string()];
    assert_eq!(sorted_names(&v), vec!["a".to_string(), "ab".to_string(), "b".to_string(), "total".to_string()]);
    assert!(str_less("a", "ab"));
    assert!(str_less("ab", "b"));
    assert!(!str_less("b", "b"));
    assert!(!str_less("b", "ab"));
}

#[test]
fn globals_get_labels_in_name_order_then_flags() {
    let mut g = CodeGenerator::new();
    let stmts = vec![
        Statement::VarDecl { name: "zeta".to_string(), var_type: Some(Type::Integer), value: Some(Expr::IntegerLit(1)) },
        Statement::VarDecl { name: "alpha".to_string(), var_type: Some(Type::Integer), value: Some(Expr::IntegerLit(2)) },
        Statement::FlagSchemaDecl { name: "verbose".to_string(), value_type: FlagValueType::Boolean, default: None },
    ];
    g.collect_global_var_labels(&stmts);
    assert_eq!(g.global_var_label("alpha").unwrap(), "gvar_0");
    assert_eq!(g.global_var_label("zeta").unwrap(), "gvar_1");
    assert_eq!(g.global_var_label("verbose").unwrap(), "gvar_2");
    assert_eq!(g.bss_section, lines(&["    gvar_0: resq 1", "    gvar_1: resq 1", "    gvar_2: resq 1"]));
}

#[test]
fn forward_globals_of_pointer_types_get_their_empty_values_in_name_order() {
    let mut g = CodeGenerator::new();
    g.ensure_global_var_label("title");
    g.ensure_global_var_label("count");
    g.ensure_global_var_label("items");
    g.global_var_types.insert("title".to_string(), Type::Text);
    g.global_var_types.insert("count".to_string(), Type::Integer);
    g.global_var_types.insert("items".to_string(), Type::List(Box::new(Type::Unknown)));
    g.forward_typed_globals.insert("title".to_string());
    g.forward_typed_globals.insert("count".to_string());
    g.forward_typed_globals.insert("items".to_string());
    g.emit_forward_global_defaults();
    assert_eq!(g.text[0], "    ; List literal with 0 elements (capacity 8)");
    assert_eq!(g.text[11], "    mov [rel gvar_2], rax  ; global store list items");
    assert_eq!(g.text[12], "    lea rax, [rel str_0]  ; empty text");
    assert_eq!(g.text[13], "    mov [rel gvar_0], rax  ; global store text title");
    assert_eq!(g.text.len(), 14);
}

#[test]
fn treating_with_an_operand_that_cannot_be_lowered_emits_nothing() {
    let mut g = CodeGenerator::new();
    g.alloc_var("v");
    g.variable_types.insert("v".to_string(), VarType::Mixed);
    g.mixed_tag_slots.insert("v".to_string(), 16);
    let lowered = g.generate_treating_on_tagged_subject(
        &Expr::Identifier("v".to_string()),
        &Expr::Identifier("missing".to_string()),
        &Expr::IntegerLit(4),
    );
    assert!(!lowered);
    assert!(g.text.is_empty());
}
