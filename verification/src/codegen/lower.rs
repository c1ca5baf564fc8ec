//! Lowering an expression to code that leaves its value in rax.
//!
//! What lowering changes is summed up as an [`Emission`]: the code, the
//! data section, the counters that fresh names are made from, the shared
//! empty text, and which runtime parts the program uses. Every other part
//! of the generator (the variables, the types, the function tables) only
//! steers the lowering and is left as it was.
use vstd::prelude::*;
use crate::ast::{BinaryOperator, Expr, FloatLiteral, Property, Type, UnaryOperator, VarType};
use crate::text::{cat2, cat3, cat4, dec_int, dec_nat, u64_text};
use super::{
    indented, label_text, lines_view, next_count, ClauseTag, CodeGenerator, RuntimeTagSource, VarTarget, TAG_BOOLEAN,
    TAG_FLOAT, TAG_INTEGER, TAG_NOTHING, TAG_STRING,
};
use super::expr::{arithmetic_operator, truth_operator};
use super::tags::{dispatch_of, source_operand};
use super::vars::{string_data_lines, string_label};
use super::tags::{is_scalar_target, load_tag_lines, scalar_noun};
use super::format::hex16;
use super::functions::BufferArgFixup;
use crate::names::{sorted_names, strictly_sorted, views_of};

verus! {

/// What lowering an expression changes.
#[verifier::ext_equal]
pub struct Emission {
    pub code: Seq<Seq<char>>,
    pub data: Seq<Seq<char>>,
    pub strings: u64,
    pub floats: u64,
    pub labels: u64,
    pub empty_text: Option<Seq<char>>,
    pub uses_floats: bool,
    pub uses_ints: bool,
    pub uses_strings: bool,
    pub uses_time: bool,
    pub uses_files: bool,
    pub uses_proc: bool,
    pub uses_lists: bool,
    pub uses_maps: bool,
    pub uses_heap: bool,
    pub uses_buffers: bool,
}

/// The label of the float constant made from count `n`.
pub open spec fn float_label(n: u64) -> Seq<char> {
    "float_"@ + dec_nat(n as nat)
}

impl Emission {
    /// One more indented instruction.
    pub open spec fn line(self, l: Seq<char>) -> Emission {
        Emission { code: self.code.push(indented(l)), ..self }
    }

    /// A label defined here.
    pub open spec fn label_here(self, l: Seq<char>) -> Emission {
        Emission { code: self.code.push(l + ":"@), ..self }
    }

    /// The next fresh label with this prefix.
    pub open spec fn next_label(self, prefix: Seq<char>) -> Seq<char> {
        label_text(prefix, self.labels)
    }

    /// The label count moved past the label just taken.
    pub open spec fn take_label(self) -> Emission {
        Emission { labels: next_count(self.labels), ..self }
    }

    /// A text constant defined under the next `str_N` label.
    pub open spec fn with_string(self, s: Seq<char>) -> Emission {
        Emission {
            strings: next_count(self.strings),
            data: self.data + string_data_lines(string_label(self.strings), s),
            ..self
        }
    }

    /// A float constant defined under the next `float_N` label.
    pub open spec fn with_float(self, f: FloatLiteral) -> Emission {
        self.with_float_bits(f.bits, f.text@)
    }

    /// A float constant with these bits, spelled `text`, defined under the
    /// next `float_N` label.
    pub open spec fn with_float_bits(self, bits: u64, text: Seq<char>) -> Emission {
        Emission {
            floats: next_count(self.floats),
            data: self.data.push("    "@ + float_label(self.floats) + ": dq 0x"@ + hex16(bits) + "  ; "@ + text),
            ..self
        }
    }

    /// The label of the shared empty text, defined on first use.
    pub open spec fn empty_label(self) -> Seq<char> {
        match self.empty_text {
            Some(l) => l,
            None => string_label(self.strings),
        }
    }

    /// The shared empty text defined, if it was not yet.
    pub open spec fn with_empty(self) -> Emission {
        match self.empty_text {
            Some(_) => self,
            None => Emission { empty_text: Some(string_label(self.strings)), ..self.with_string(""@) },
        }
    }
}

impl CodeGenerator {
    /// The part of the generator that lowering changes.
    #[verifier::opaque]
    pub open spec fn emission(&self) -> Emission {
        Emission {
            code: self.code(),
            data: lines_view(self.data_section@),
            strings: self.string_counter,
            floats: self.float_counter,
            labels: self.label_counter,
            empty_text: match self.empty_string_label {
                Some(l) => Some(l@),
                None => None,
            },
            uses_floats: self.uses_floats,
            uses_ints: self.uses_ints,
            uses_strings: self.uses_strings,
            uses_time: self.uses_time,
            uses_files: self.uses_files,
            uses_proc: self.uses_proc,
            uses_lists: self.uses_lists,
            uses_maps: self.uses_maps,
            uses_heap: self.uses_heap,
            uses_buffers: self.uses_buffers,
        }
    }

    /// The generator with everything lowering changes set aside: what
    /// steers lowering.
    #[verifier::opaque]
    pub open spec fn tables(&self) -> CodeGenerator {
        CodeGenerator {
            text: arbitrary(),
            data_section: arbitrary(),
            string_counter: 0,
            float_counter: 0,
            label_counter: 0,
            empty_string_label: None,
            uses_floats: false,
            uses_ints: false,
            uses_strings: false,
            uses_time: false,
            uses_files: false,
            uses_proc: false,
            uses_lists: false,
            uses_maps: false,
            uses_heap: false,
            uses_buffers: false,
            ..*self
        }
    }

    /// Whether `self` and `other` differ only in what lowering changes.
    pub open spec fn same_tables(&self, other: &CodeGenerator) -> bool {
        self.tables() == other.tables()
    }

    /// The tables, with the stack depth set aside too.
    #[verifier::opaque]
    pub open spec fn tables_but_stack(&self) -> CodeGenerator {
        CodeGenerator { stack_offset: 0, ..self.tables() }
    }

    /// The tables, with the record of initialized globals set aside too.
    #[verifier::opaque]
    pub open spec fn tables_but_initialized(&self) -> CodeGenerator {
        CodeGenerator { initialized_globals: arbitrary(), ..self.tables() }
    }

    /// Note that the program uses floats.
    fn mark_floats(&mut self)
        ensures
            final(self).emission() == (Emission { uses_floats: true, ..old(self).emission() }),
            final(self).same_tables(old(self)),
    {
        reveal(CodeGenerator::tables);
        reveal(CodeGenerator::emission);
        self.uses_floats = true;
        assert(self.emission() =~= (Emission { uses_floats: true, ..old(self).emission() }));
    }

    /// Note that the program uses integer routines.
    fn mark_ints(&mut self)
        ensures
            final(self).emission() == (Emission { uses_ints: true, ..old(self).emission() }),
            final(self).same_tables(old(self)),
    {
        reveal(CodeGenerator::tables);
        reveal(CodeGenerator::emission);
        self.uses_ints = true;
        assert(self.emission() =~= (Emission { uses_ints: true, ..old(self).emission() }));
    }

    /// Note that the program reads the clock.
    fn mark_time(&mut self)
        ensures
            final(self).emission() == (Emission { uses_time: true, ..old(self).emission() }),
            final(self).same_tables(old(self)),
    {
        reveal(CodeGenerator::tables);
        reveal(CodeGenerator::emission);
        self.uses_time = true;
        assert(self.emission() =~= (Emission { uses_time: true, ..old(self).emission() }));
    }

    /// Note that the program manages processes.
    fn mark_proc(&mut self)
        ensures
            final(self).emission() == (Emission { uses_files: true, uses_proc: true, ..old(self).emission() }),
            final(self).same_tables(old(self)),
    {
        reveal(CodeGenerator::tables);
        reveal(CodeGenerator::emission);
        self.uses_files = true;
        self.uses_proc = true;
        assert(self.emission() =~= (Emission { uses_files: true, uses_proc: true, ..old(self).emission() }));
    }

    /// Note that the program uses lists on the heap.
    fn mark_lists(&mut self)
        ensures
            final(self).emission() == (Emission { uses_lists: true, uses_heap: true, ..old(self).emission() }),
            final(self).same_tables(old(self)),
    {
        reveal(CodeGenerator::tables);
        reveal(CodeGenerator::emission);
        self.uses_lists = true;
        self.uses_heap = true;
        assert(self.emission() =~= (Emission { uses_lists: true, uses_heap: true, ..old(self).emission() }));
    }

    /// Note that the program uses maps.
    fn mark_maps(&mut self)
        ensures
            final(self).emission() == (Emission { uses_maps: true, ..old(self).emission() }),
            final(self).same_tables(old(self)),
    {
        reveal(CodeGenerator::tables);
        reveal(CodeGenerator::emission);
        self.uses_maps = true;
        assert(self.emission() =~= (Emission { uses_maps: true, ..old(self).emission() }));
    }

    /// Note that the program uses buffers.
    fn mark_buffers(&mut self)
        ensures
            final(self).emission() == (Emission { uses_buffers: true, ..old(self).emission() }),
            final(self).same_tables(old(self)),
    {
        reveal(CodeGenerator::tables);
        reveal(CodeGenerator::emission);
        self.uses_buffers = true;
        assert(self.emission() =~= (Emission { uses_buffers: true, ..old(self).emission() }));
    }

    /// Allocate an empty list, leaving it in rax.
    fn emit_empty_list(&mut self)
        ensures
            final(self).emission() == empty_list_code(old(self).emission()),
            final(self).same_tables(old(self)),
    {
        // Every list allocation goes through the heap allocator.
        self.mark_lists();
        self.put("; List literal with 0 elements (capacity 8)");
        let mmap_ok = self.fresh("list_mmap_ok");
        self.put("HEAP_ALLOC 96  ; size; returns ptr or 0");
        self.put("test rax, rax  ; HEAP_ALLOC returns 0 on failure");
        self.put(cat2("jnz ", mmap_ok.as_str()).as_str());
        self.put("EXIT 1");
        self.put_label(mmap_ok.as_str());
        self.put("push rax  ; save list pointer");
        self.put("mov qword [rax], 8  ; capacity");
        self.put("mov qword [rax + 8], 0  ; length");
        self.put("mov qword [rax + 16], 8  ; element size");
        self.put("pop rax  ; list pointer in rax");
    }

    /// Make an empty map, leaving it in rax.
    fn emit_empty_map(&mut self)
        ensures
            final(self).emission() == empty_map_code(old(self).emission()),
            final(self).same_tables(old(self)),
    {
        self.mark_maps();
        self.put("; Map literal with 0 pair(s)");
        self.put("mov rdi, 8  ; capacity hint");
        self.put("call _map_new");
        self.put("push rax  ; save map pointer");
        self.put("pop rax  ; final map pointer in rax");
    }

    /// Load a named variable's value into rax.
    fn put_load(&mut self, name: &str)
        requires
            old(self).variables@.contains_key(name@) || old(self).global_var_labels@.contains_key(name@),
        ensures
            final(self).emission() == old(self).emission().line(
                if old(self).variables@.contains_key(name@) {
                    "mov rax, [rbp-"@ + dec_int(old(self).variables@[name@] as int) + "]"@
                } else {
                    "mov rax, [rel "@ + old(self).global_var_labels@[name@]@ + "]"@
                },
            ),
            final(self).same_tables(old(self)),
    {
        reveal(CodeGenerator::tables);
        reveal(CodeGenerator::emission);
        self.emit_load_named_var_into_rax(name);
        assert(self.emission() =~= old(self).emission().line(
            if old(self).variables@.contains_key(name@) {
                "mov rax, [rbp-"@ + dec_int(old(self).variables@[name@] as int) + "]"@
            } else {
                "mov rax, [rel "@ + old(self).global_var_labels@[name@]@ + "]"@
            },
        ));
    }

    /// Emit one indented instruction.
    fn put(&mut self, l: &str)
        ensures
            final(self).emission() == old(self).emission().line(l@),
            final(self).same_tables(old(self)),
    {
        reveal(CodeGenerator::tables);
        reveal(CodeGenerator::emission);
        self.emit_indent(l);
        assert(self.emission() =~= old(self).emission().line(l@));
    }

    /// Define a label here.
    fn put_label(&mut self, l: &str)
        ensures
            final(self).emission() == old(self).emission().label_here(l@),
            final(self).same_tables(old(self)),
    {
        reveal(CodeGenerator::tables);
        reveal(CodeGenerator::emission);
        self.emit_label(l);
        assert(self.emission() =~= old(self).emission().label_here(l@));
    }

    /// A fresh label.
    fn fresh(&mut self, prefix: &str) -> (r: String)
        ensures
            r@ == old(self).emission().next_label(prefix@),
            final(self).emission() == old(self).emission().take_label(),
            final(self).same_tables(old(self)),
    {
        reveal(CodeGenerator::tables);
        reveal(CodeGenerator::emission);
        let r = self.new_label(prefix);
        assert(self.emission() =~= old(self).emission().take_label());
        r
    }

    /// A text constant.
    fn text_const(&mut self, s: &str) -> (r: String)
        ensures
            r@ == string_label(old(self).emission().strings),
            final(self).emission() == old(self).emission().with_string(s@),
            final(self).same_tables(old(self)),
    {
        reveal(CodeGenerator::tables);
        reveal(CodeGenerator::emission);
        let r = self.add_string(s);
        assert(self.emission() =~= old(self).emission().with_string(s@));
        r
    }

    /// A float constant.
    fn float_const(&mut self, f: &FloatLiteral) -> (r: String)
        ensures
            r@ == float_label(old(self).emission().floats),
            final(self).emission() == old(self).emission().with_float(*f),
            final(self).same_tables(old(self)),
    {
        reveal(CodeGenerator::tables);
        reveal(CodeGenerator::emission);
        let r = self.add_float(f);
        assert(lines_view(self.data_section@) =~= lines_view(old(self).data_section@).push(
            "    "@ + float_label(old(self).float_counter) + ": dq 0x"@ + hex16(f.bits) + "  ; "@ + f.text@,
        ));
        assert(self.emission() =~= old(self).emission().with_float(*f));
        r
    }

    /// The shared empty text's label.
    fn empty_text(&mut self) -> (r: String)
        ensures
            r@ == old(self).emission().empty_label(),
            final(self).emission() == old(self).emission().with_empty(),
            final(self).same_tables(old(self)),
    {
        reveal(CodeGenerator::tables);
        reveal(CodeGenerator::emission);
        let r = self.get_empty_string_label();
        assert(self.emission() =~= old(self).emission().with_empty());
        r
    }
}


/// The code after a possibly missing text read: a null pointer in rax
/// becomes the shared empty text, with the error flag set; a present one
/// clears the flag. `prefix` names the two labels.
pub open spec fn text_or_empty(m: Emission, prefix: Seq<char>) -> Emission {
    let missing = m.next_label(prefix + "_missing"@);
    let m1 = m.take_label();
    let done = m1.next_label(prefix + "_done"@);
    let m2 = m1.take_label().line("test rax, rax"@).line("jz "@ + missing + "  ; out of range"@).line(
        "CLEAR_LAST_ERROR  ; in range"@,
    ).line("jmp "@ + done).label_here(missing);
    m2.with_empty().line("lea rax, [rel "@ + m2.empty_label() + "]  ; empty text for out-of-range positional read"@).line(
        "SET_LAST_ERROR 1  ; out of range"@,
    ).label_here(done)
}

/// The code after an environment lookup's name is in rax: the lookup,
/// and the empty text with the error flag for a name that is not set.
pub open spec fn env_lookup(m: Emission) -> Emission {
    let m1 = m.line("mov rdi, rax"@).line("call _get_env"@);
    let missing = m1.next_label("env_missing"@);
    let m2 = m1.take_label();
    let done = m2.next_label("env_done"@);
    let m3 = m2.take_label().line("test rax, rax"@).line("jz "@ + missing + "  ; env var not set"@).line(
        "CLEAR_LAST_ERROR  ; env var found"@,
    ).line("jmp "@ + done).label_here(missing);
    m3.with_empty().line("lea rax, [rel "@ + m3.empty_label() + "]  ; empty text for missing env var"@).line(
        "SET_LAST_ERROR 1  ; env var not set"@,
    ).label_here(done)
}

/// The tag `e` provably carries at emit time, by the tables of `t`.
#[verifier::opaque]
pub open spec fn tag_at(t: CodeGenerator, e: Expr) -> Option<u8> {
    t.emit_tag(e)
}

/// Where `e`'s runtime tag is once `e` is lowered, by the tables of `t`.
#[verifier::opaque]
pub open spec fn source_at(t: CodeGenerator, e: Expr) -> Option<RuntimeTagSource> {
    t.runtime_source(e)
}

/// The tag a type predicate on `e` reads at emit time, by the tables of `t`.
#[verifier::opaque]
pub open spec fn pred_tag_at(t: CodeGenerator, e: Expr) -> Option<u8> {
    t.predicate_tag(e)
}

/// Whether floats occur among `e`'s operands, by the tables of `t`.
#[verifier::opaque]
pub open spec fn floats_in(t: CodeGenerator, e: Expr) -> bool {
    t.float_operands(e)
}

/// Whether `e`'s value is a float, by the tables of `t`.
#[verifier::opaque]
pub open spec fn float_at(t: CodeGenerator, e: Expr) -> bool {
    t.float_expr(e)
}

/// The storage class of `e`'s value, by the tables of `t`.
#[verifier::opaque]
pub open spec fn type_at(t: CodeGenerator, e: Expr) -> Option<VarType> {
    t.inferred(e)
}

/// Whether `e` is a text or a buffer, by the tables of `t`.
pub open spec fn stringy_at(t: CodeGenerator, e: Expr) -> bool {
    type_at(t, e) == Some(VarType::Text) || type_at(t, e) == Some(VarType::Buffer)
}

/// Whether `e` is known never to be a text, by the tables of `t`.
pub open spec fn never_stringy_at(t: CodeGenerator, e: Expr) -> bool {
    match type_at(t, e) {
        Some(VarType::Integer) | Some(VarType::Float) | Some(VarType::Boolean) | Some(VarType::List)
        | Some(VarType::Dict) => true,
        _ => false,
    }
}

/// Whether a name is declared to hold a thing.
pub open spec fn names_thing(t: CodeGenerator, e: Expr) -> bool {
    match e {
        Expr::Identifier(n) => t.declared_types@.contains_key(n@) && t.declared_types@[n@] is Thing,
        _ => false,
    }
}

/// The code after an arithmetic operand is in rax that raises the error
/// flag when the operand is `nothing`: at emit time when its tag is
/// provably nothing, by its runtime tag when it has one, and not at all
/// when it carries no tag.
pub open spec fn nothing_check(t: CodeGenerator, m: Emission, e: Expr) -> Emission {
    if tag_at(t, e) == Some(TAG_NOTHING) {
        m.line("SET_LAST_ERROR 1  ; nothing in arithmetic (static)"@)
    } else {
        match source_at(t, e) {
            None => m,
            Some(src) => {
                let m1 = match source_operand(src) {
                    Some(o) => m.line("movzx r11, byte "@ + o + "  ; operand tag (shadow slot)"@),
                    None => m,
                };
                let ok = m1.next_label("arith_not_nothing"@);
                m1.take_label().line("cmp r11, 6  ; nothing operand?"@).line("jne "@ + ok).line(
                    "SET_LAST_ERROR 1  ; nothing in arithmetic"@,
                ).label_here(ok)
            },
        }
    }
}

/// The instructions applying an integer operator to rax (left) and rbx
/// (right).
pub open spec fn int_op_lines(op: BinaryOperator) -> Seq<Seq<char>> {
    match op {
        BinaryOperator::Add => seq!["INT_ADD"@],
        BinaryOperator::Subtract => seq!["INT_SUB"@],
        BinaryOperator::Multiply => seq!["INT_MUL"@],
        BinaryOperator::Divide => seq!["INT_DIV"@],
        BinaryOperator::Modulo => seq!["INT_MOD"@],
        BinaryOperator::Equal => seq!["INT_EQ"@],
        BinaryOperator::NotEqual => seq!["INT_NE"@],
        BinaryOperator::Greater => seq!["INT_GT"@],
        BinaryOperator::Less => seq!["INT_LT"@],
        BinaryOperator::GreaterEqual => seq!["INT_GE"@],
        BinaryOperator::LessEqual => seq!["INT_LE"@],
        BinaryOperator::And => seq!["INT_AND"@],
        BinaryOperator::Or => seq!["INT_OR"@],
        BinaryOperator::BitAnd => seq!["and rax, rbx"@],
        BinaryOperator::BitOr => seq!["or rax, rbx"@],
        BinaryOperator::BitXor => seq!["xor rax, rbx"@],
        BinaryOperator::ShiftLeft => seq!["mov cl, bl"@, "shl rax, cl"@],
        BinaryOperator::ShiftRight => seq!["mov cl, bl"@, "shr rax, cl"@],
    }
}

/// The instructions applying a float operator to xmm0 (left) and xmm1
/// (right); a logical or bitwise operator works on the two truncated to
/// whole numbers.
pub open spec fn float_op_lines(op: BinaryOperator) -> Seq<Seq<char>> {
    let to_ints = seq!["FLOAT_TO_INT"@, "mov rbx, rax"@, "RAX_TO_XMM0"@, "FLOAT_TO_INT"@];
    match op {
        BinaryOperator::Add => seq!["FLOAT_ADD"@],
        BinaryOperator::Subtract => seq!["FLOAT_SUB"@],
        BinaryOperator::Multiply => seq!["FLOAT_MUL"@],
        BinaryOperator::Divide => seq!["FLOAT_DIV"@],
        BinaryOperator::Modulo => seq!["FLOAT_MOD"@],
        BinaryOperator::Equal => seq!["FLOAT_EQ"@],
        BinaryOperator::NotEqual => seq!["FLOAT_NE"@],
        BinaryOperator::Greater => seq!["FLOAT_GT"@],
        BinaryOperator::Less => seq!["FLOAT_LT"@],
        BinaryOperator::GreaterEqual => seq!["FLOAT_GE"@],
        BinaryOperator::LessEqual => seq!["FLOAT_LE"@],
        BinaryOperator::And => to_ints.push("and rax, rbx"@),
        BinaryOperator::Or => to_ints.push("or rax, rbx"@),
        BinaryOperator::BitAnd => to_ints.push("and rax, rbx"@),
        BinaryOperator::BitOr => to_ints.push("or rax, rbx"@),
        BinaryOperator::BitXor => to_ints.push("xor rax, rbx"@),
        BinaryOperator::ShiftLeft => to_ints + seq!["mov cl, bl"@, "shl rax, cl"@],
        BinaryOperator::ShiftRight => to_ints + seq!["mov cl, bl"@, "shr rax, cl"@],
    }
}

impl Emission {
    /// Several indented instructions.
    pub open spec fn lines(self, ls: Seq<Seq<char>>) -> Emission {
        Emission { code: self.code + ls.map_values(|l: Seq<char>| indented(l)), ..self }
    }
}

/// The `mov rax, 0|1` of a truth value.
pub open spec fn truth_line(b: bool, comment: Seq<char>) -> Seq<char> {
    (if b {
        "mov rax, 1"@
    } else {
        "mov rax, 0"@
    }) + comment
}

/// The code after a float operator's right operand is in rax: made a
/// float if it is a whole number, and saved.
pub open spec fn float_right_done(m: Emission, right_is_float: bool) -> Emission {
    (if right_is_float {
        m
    } else {
        m.line("INT_TO_FLOAT"@).line("XMM0_TO_RAX"@)
    }).line("push rax"@)
}

/// The code after a float operator's left operand is in rax: both
/// operands moved to xmm0 and xmm1, and the operator applied.
pub open spec fn float_left_done(m: Emission, left_is_float: bool, op: BinaryOperator) -> Emission {
    (if left_is_float {
        m
    } else {
        m.line("INT_TO_FLOAT"@).line("XMM0_TO_RAX"@)
    }).line("RAX_TO_XMM0"@).line("pop rax"@).line("RAX_TO_XMM1"@).lines(float_op_lines(op)).lines(
        if truth_operator(op) {
            Seq::empty()
        } else {
            seq!["XMM0_TO_RAX"@]
        },
    )
}

/// The code testing whether a value that has just been put in rax is
/// (or, for `!=`, is not) `nothing`, by its runtime tag, when it has one.
pub open spec fn nothing_tag_test(t: CodeGenerator, m: Emission, value: Expr, equal: bool) -> Emission {
    let not = if equal {
        ""@
    } else {
        "not "@
    };
    match source_at(t, value) {
        Some(src) => {
            let m1 = match source_operand(src) {
                Some(o) => m.line("movzx r11, byte "@ + o + "  ; load mixed element tag"@),
                None => m,
            };
            m1.line("xor rax, rax"@).line(
                if equal {
                    "TAG_EQ_IMM 6  ; is nothing?"@
                } else {
                    "TAG_NE_IMM 6  ; is not nothing?"@
                },
            )
        },
        None => m.line(truth_line(!equal, "  ; is "@ + not + "nothing: operand carries no tag"@)),
    }
}

/// The answer to `value is nothing` (or `is not`) when `value`'s tag is
/// known at emit time.
pub open spec fn nothing_folded(m: Emission, tag: u8, equal: bool) -> Emission {
    let not = if equal {
        ""@
    } else {
        "not "@
    };
    m.line(
        truth_line(
            if equal {
                tag == TAG_NOTHING
            } else {
                tag != TAG_NOTHING
            },
            "  ; is "@ + not + "nothing folded (static tag "@ + dec_nat(tag as nat) + ")"@,
        ),
    )
}

/// The start of a bounded parse of a buffer's text: its length into r12
/// and its data into rdi, rbx and r12 saved around it.
pub open spec fn buffer_parse_head(m: Emission) -> Emission {
    m.line("push rbx"@).line("push r12"@).line("mov rbx, rax  ; save buffer pointer"@).line("mov rdi, rbx"@).line(
        "call _buffer_length"@,
    ).line("mov r12, rax  ; save length"@).line("mov rdi, rbx"@).line("call _buffer_data"@).line("mov rdi, rax"@)
}

/// The code after a cast's value is in rax: a number read from text (in
/// `radix`) or a buffer's text bounded by its length, a float truncated or
/// a number made a float, a text's truth read from its words; a cast to
/// text of a text, and a cast to a type with no conversion, leave the value.
pub open spec fn cast_code(t: CodeGenerator, m: Emission, value: Expr, target: Type, radix: u32) -> Emission {
    match target {
        Type::Integer => if float_at(t, value) {
            m.line("; Cast float to integer"@).line("RAX_TO_XMM0"@).line("cvttsd2si rax, xmm0"@)
        } else {
            match type_at(t, value) {
                Some(VarType::Buffer) => {
                    let h = buffer_parse_head(Emission { uses_ints: true, uses_buffers: true, ..m });
                    (if radix == 10 {
                        h.line("mov rsi, r12  ; max length"@).line("call _parse_i64_bounded"@)
                    } else {
                        h.line("mov rsi, "@ + dec_nat(radix as nat)).line("mov rdx, r12  ; max length"@).line(
                            "call _parse_int_radix_bounded"@,
                        )
                    }).line("pop r12"@).line("pop rbx"@)
                },
                Some(VarType::Text) => {
                    let h = Emission { uses_ints: true, ..m }.line("mov rdi, rax"@);
                    if radix == 10 {
                        h.line("call _parse_i64"@)
                    } else {
                        h.line("mov rsi, "@ + dec_nat(radix as nat)).line("call _parse_int_radix"@)
                    }
                },
                _ => m,
            }
        },
        Type::Float => if float_at(t, value) {
            m
        } else {
            match type_at(t, value) {
                Some(VarType::Buffer) => buffer_parse_head(
                    Emission { uses_floats: true, uses_buffers: true, ..m },
                ).line("mov rsi, r12  ; max length"@).line("call _parse_f64_bounded"@).line("pop r12"@).line(
                    "pop rbx"@,
                ),
                Some(VarType::Text) => Emission { uses_floats: true, ..m }.line("mov rdi, rax"@).line(
                    "call _parse_f64"@,
                ),
                _ => Emission { uses_floats: true, ..m }.line("; Cast integer to float"@).line(
                    "cvtsi2sd xmm0, rax"@,
                ).line("XMM0_TO_RAX"@),
            }
        },
        Type::Boolean => match type_at(t, value) {
            Some(VarType::Text) | Some(VarType::Buffer) => {
                let m1 = Emission { uses_strings: true, ..m }.line("; Cast text/buffer to boolean"@).line(
                    "test rax, rax"@,
                );
                let null = m1.next_label("bool_null"@);
                let m2 = m1.take_label();
                let done = m2.next_label("bool_done"@);
                let m3 = m2.take_label().line("jz "@ + null);
                let m4 = if type_at(t, value) == Some(VarType::Buffer) {
                    m3.line("BUFFER_DATA_ADDR rax  ; buffer data area"@)
                } else {
                    m3
                };
                m4.line("mov rdi, rax"@).line("call _text_to_boolean"@).line("jmp "@ + done).label_here(null).line(
                    "xor rax, rax"@,
                ).label_here(done)
            },
            _ => m.line("; Cast to boolean"@).line("BOOL_FROM_RAX"@),
        },
        Type::Text => m,
        _ => m.line("; Cast (no-op)"@),
    }
}

/// The tag a type predicate's scalar noun names.
pub open spec fn scalar_target_tag(t: Type) -> u8 {
    match t {
        Type::Integer => TAG_INTEGER,
        Type::Float => TAG_FLOAT,
        Type::Text => TAG_STRING,
        _ => TAG_BOOLEAN,
    }
}

/// The answer to `value is a <noun>` when `value`'s tag is known at emit
/// time.
pub open spec fn type_check_folded(m: Emission, tag: u8, noun: Type) -> Emission {
    m.line(
        truth_line(
            tag == scalar_target_tag(noun),
            "  ; is a "@ + scalar_noun(noun) + " folded (static tag "@ + dec_nat(tag as nat) + ")"@,
        ),
    )
}

/// The code testing a value that has just been put in rax against a
/// scalar noun, by its runtime tag; a value with no tag anywhere is taken
/// for a number.
pub open spec fn type_check_test(t: CodeGenerator, m: Emission, value: Expr, noun: Type) -> Emission {
    match source_at(t, value) {
        Some(src) => {
            let m1 = match source_operand(src) {
                Some(o) => m.line("movzx r11, byte "@ + o + "  ; load mixed element tag"@),
                None => m,
            };
            m1.line("xor rax, rax"@).line(
                "TAG_EQ_IMM "@ + dec_nat(scalar_target_tag(noun) as nat) + "  ; is a "@ + scalar_noun(noun) + "?"@,
            )
        },
        None => m.line(
            truth_line(noun is Integer, "  ; is a "@ + scalar_noun(noun) + ": no runtime tag, treated as number"@),
        ),
    }
}

/// The code after a property check's value is in rax.
pub open spec fn property_code(t: CodeGenerator, m: Emission, value: Expr, property: Property) -> Emission {
    match property {
        Property::Even => m.line("INT_IS_EVEN"@),
        Property::Odd => m.line("INT_IS_ODD"@),
        Property::Zero => m.line("INT_IS_ZERO"@),
        Property::Positive => m.line("INT_IS_POSITIVE"@),
        Property::Negative => m.line("INT_IS_NEGATIVE"@),
        Property::Empty => {
            let sized = match value {
                Expr::Identifier(n) => t.tracked_type(n@) == Some(VarType::Buffer) || t.tracked_type(n@) == Some(
                    VarType::List,
                ),
                _ => false,
            };
            let text = match value {
                Expr::StringLit(_) => true,
                Expr::Identifier(n) => t.tracked_type(n@) == Some(VarType::Text),
                _ => false,
            };
            let m1 = if sized {
                m.line("mov rax, [rax + 8]  ; get size/length"@)
            } else if text {
                m.with_empty().line("lea rcx, [rel "@ + m.empty_label() + "]  ; \"\" stands in for a null text"@).line(
                    "test rax, rax"@,
                ).line("cmovz rax, rcx"@).line("movzx rax, byte [rax]  ; first byte: NUL means empty"@)
            } else {
                m
            };
            m1.line("test rax, rax"@).line("setz al"@).line("movzx rax, al"@)
        },
    }
}

/// Whether an expression is one this lowering handles, given the tables
/// of `t`: every form but those whose code rests on parts kept elsewhere
/// (calls, collection literals with elements, collection reads, format
/// strings, command-line reads other than the program's name, text
/// comparisons); a type predicate only on a scalar noun, and a cast to text
/// only of what is text already.
#[verifier::opaque]
pub open spec fn lowerable(t: CodeGenerator, e: Expr) -> bool
    decreases e,
{
    match e {
        Expr::IntegerLit(_) | Expr::FloatLit(_) | Expr::BoolLit(_) | Expr::NothingLit | Expr::StringLit(_)
        | Expr::Range { .. } | Expr::LastError | Expr::ArgumentName | Expr::EnvironmentVariableCount
        | Expr::EnvironmentVariableFirst | Expr::EnvironmentVariableLast | Expr::EnvironmentVariableEmpty
        | Expr::CurrentTime | Expr::Fork | Expr::ReapedStatus => true,
        Expr::Identifier(n) => t.variables@.contains_key(n@) || t.global_var_labels@.contains_key(n@),
        Expr::ListLit { elements } => elements@.len() == 0,
        Expr::MapLit { pairs } => pairs@.len() == 0,
        Expr::EnvironmentVariable { name } => lowerable(t, *name),
        Expr::EnvironmentVariableExists { name } => lowerable(t, *name),
        Expr::EnvironmentVariableAt { index } => lowerable(t, *index),
        Expr::ReapChild { pid, .. } => match pid {
            Some(p) => lowerable(t, *p),
            None => true,
        },
        Expr::UnaryOp { operand, .. } => lowerable(t, *operand),
        Expr::PropertyCheck { value, .. } => lowerable(t, *value),
        Expr::TypeCheck { value, type_noun } => is_scalar_target(type_noun) && (pred_tag_at(t, *value) is Some
            || lowerable(t, *value)),
        Expr::Cast { value, target_type, .. } => lowerable(t, *value) && (target_type != Type::Text || type_at(
            t,
            *value,
        ) == Some(VarType::Text)),
        Expr::TreatingAs { value, match_value, replacement } => lowerable(t, *value) && lowerable(t, *match_value)
            && lowerable(t, *replacement),
        Expr::BinaryOp { left, op, right } => {
            let eqne = op == BinaryOperator::Equal || op == BinaryOperator::NotEqual;
            if eqne && (names_thing(t, *left) || names_thing(t, *right)) {
                false
            } else if eqne && (*left is NothingLit || *right is NothingLit) {
                if *left is NothingLit && *right is NothingLit {
                    true
                } else if *left is NothingLit {
                    tag_at(t, *right) is Some || lowerable(t, *right)
                } else {
                    tag_at(t, *left) is Some || lowerable(t, *left)
                }
            } else if floats_in(t, *left) || floats_in(t, *right) {
                lowerable(t, *left) && lowerable(t, *right)
            } else if eqne && ((stringy_at(t, *left) && never_stringy_at(t, *right)) || (stringy_at(t, *right)
                && never_stringy_at(t, *left))) {
                true
            } else if eqne && (stringy_at(t, *left) || stringy_at(t, *right)) {
                false
            } else {
                lowerable(t, *left) && lowerable(t, *right)
            }
        },
        _ => false,
    }
}

/// Whether a binary operator is lowered here: not a comparison of things
/// or of texts, and its operands lowered too where they are evaluated.
pub open spec fn binary_lowerable(t: CodeGenerator, e: Expr) -> bool {
    match e {
        Expr::BinaryOp { left, op, right } => {
            let eqne = op == BinaryOperator::Equal || op == BinaryOperator::NotEqual;
            if eqne && (names_thing(t, *left) || names_thing(t, *right)) {
                false
            } else if eqne && (*left is NothingLit || *right is NothingLit) {
                if *left is NothingLit && *right is NothingLit {
                    true
                } else if *left is NothingLit {
                    tag_at(t, *right) is Some || lowerable(t, *right)
                } else {
                    tag_at(t, *left) is Some || lowerable(t, *left)
                }
            } else if floats_in(t, *left) || floats_in(t, *right) {
                lowerable(t, *left) && lowerable(t, *right)
            } else if eqne && ((stringy_at(t, *left) && never_stringy_at(t, *right)) || (stringy_at(t, *right)
                && never_stringy_at(t, *left))) {
                true
            } else if eqne && (stringy_at(t, *left) || stringy_at(t, *right)) {
                false
            } else {
                lowerable(t, *left) && lowerable(t, *right)
            }
        },
        _ => false,
    }
}

/// The code of a literal or a variable read.
pub open spec fn literal_code(t: CodeGenerator, m: Emission, e: Expr) -> Emission {
    match e {
        Expr::IntegerLit(n) => m.line("mov rax, "@ + dec_int(n as int)),
        Expr::FloatLit(f) => Emission { uses_floats: true, ..m }.with_float(f).line(
            "FLOAT_LOAD "@ + float_label(m.floats),
        ).line("XMM0_TO_RAX"@),
        Expr::BoolLit(b) => m.line(truth_line(b, ""@)),
        Expr::NothingLit => m.line("xor rax, rax  ; nothing literal, payload 0 (tag 6 set by caller)"@),
        Expr::StringLit(s) => m.with_string(s@).line("lea rax, [rel "@ + string_label(m.strings) + "]"@),
        Expr::Identifier(n) => if t.variables@.contains_key(n@) {
            m.line("mov rax, [rbp-"@ + dec_int(t.variables@[n@] as int) + "]"@)
        } else {
            m.line("mov rax, [rel "@ + t.global_var_labels@[n@]@ + "]"@)
        },
        Expr::ListLit { .. } => empty_list_code(m),
        Expr::MapLit { .. } => empty_map_code(m),
        _ => m,
    }
}

/// The code of an empty list: a header of capacity 8, length 0 and
/// element size 8, with room for eight elements and their tags, allocated
/// on the heap; an allocation that fails ends the program.
pub open spec fn empty_list_code(m: Emission) -> Emission {
    let m1 = Emission { uses_lists: true, uses_heap: true, ..m }.line("; List literal with 0 elements (capacity 8)"@);
    let ok = m1.next_label("list_mmap_ok"@);
    m1.take_label().line("HEAP_ALLOC 96  ; size; returns ptr or 0"@).line(
        "test rax, rax  ; HEAP_ALLOC returns 0 on failure"@,
    ).line("jnz "@ + ok).line("EXIT 1"@).label_here(ok).line("push rax  ; save list pointer"@).line(
        "mov qword [rax], 8  ; capacity"@,
    ).line("mov qword [rax + 8], 0  ; length"@).line("mov qword [rax + 16], 8  ; element size"@).line(
        "pop rax  ; list pointer in rax"@,
    )
}

/// The code of an empty map, made with room for eight pairs.
pub open spec fn empty_map_code(m: Emission) -> Emission {
    Emission { uses_maps: true, ..m }.line("; Map literal with 0 pair(s)"@).line("mov rdi, 8  ; capacity hint"@).line(
        "call _map_new"@,
    ).line("push rax  ; save map pointer"@).line("pop rax  ; final map pointer in rax"@)
}

/// The code of a read of the runtime's own state: the error flag, the
/// program's name, the environment.
pub open spec fn read_code(m: Emission, e: Expr) -> Emission {
    match e {
        Expr::LastError => m.line("mov rax, [rel _last_error]"@),
        Expr::ArgumentName => m.line("xor rdi, rdi  ; index 0 - program name"@).line("call _get_arg"@),
        Expr::EnvironmentVariableCount => m.line("call _get_env_count"@),
        Expr::EnvironmentVariableFirst => text_or_empty(
            m.line("xor rdi, rdi  ; index 0"@).line("call _get_env_at"@),
            "env_first"@,
        ),
        Expr::EnvironmentVariableLast => text_or_empty(
            m.line("call _get_env_count"@).line("dec rax  ; last index = count - 1"@).line("mov rdi, rax"@).line(
                "call _get_env_at"@,
            ),
            "env_last"@,
        ),
        Expr::EnvironmentVariableEmpty => m.line("call _get_env_count"@).line("test rax, rax"@).line(
            "setz al  ; 1 if count == 0"@,
        ).line("movzx rax, al"@),
        Expr::CurrentTime => Emission { uses_time: true, ..m }.line("; Get current time"@).line("TIME_GET"@),
        Expr::Fork => Emission { uses_files: true, uses_proc: true, ..m }.line(
            "; fork() - 0 in child, child pid in parent, negative on error"@,
        ).line("FORK"@),
        Expr::ReapedStatus => m.line("; the reaped status - raw wait4 status word"@).line(
            "mov rax, [rel _reaped_status]"@,
        ),
        _ => m,
    }
}

/// The emission after lowering `e` from `m`, with the tables of `t`.
#[verifier::opaque]
pub open spec fn gen(t: CodeGenerator, m: Emission, e: Expr) -> Emission
    decreases e, 2int,
{
    match e {
        Expr::IntegerLit(_) | Expr::FloatLit(_) | Expr::BoolLit(_) | Expr::NothingLit | Expr::StringLit(_)
        | Expr::Identifier(_) | Expr::ListLit { .. } | Expr::MapLit { .. } => literal_code(t, m, e),
        Expr::LastError | Expr::ArgumentName | Expr::EnvironmentVariableCount | Expr::EnvironmentVariableFirst
        | Expr::EnvironmentVariableLast | Expr::EnvironmentVariableEmpty | Expr::CurrentTime | Expr::Fork
        | Expr::ReapedStatus => read_code(m, e),
        Expr::EnvironmentVariable { name } => env_lookup(gen(t, m, *name)),
        Expr::EnvironmentVariableAt { index } => text_or_empty(
            gen(t, m, *index).line("mov rdi, rax"@).line("call _get_env_at"@),
            "env_at"@,
        ),
        Expr::EnvironmentVariableExists { name } => gen(t, m, *name).line("mov rdi, rax"@).line(
            "call _get_env"@,
        ).line("test rax, rax"@).line("setnz al"@).line("movzx rax, al  ; 1 if exists, 0 otherwise"@),
        Expr::ReapChild { pid, no_hang } => {
            let m1 = Emission { uses_files: true, uses_proc: true, ..m };
            let m2 = match pid {
                None => m1.line("mov rdi, -1  ; wait for any child"@),
                Some(p) => gen(t, m1, *p).line("mov rdi, rax  ; wait for this specific pid"@),
            };
            if no_hang {
                m2.line("; wait4() with WNOHANG - non-blocking reap"@).line("REAP_CHILD 1"@)
            } else {
                m2.line("; wait4() - reap a child, returns its pid (or -1 on error)"@).line("REAP_CHILD 0"@)
            }
        },
        Expr::UnaryOp { op, operand } => match op {
            UnaryOperator::Negate => if type_at(t, *operand) == Some(VarType::Float) {
                gen(t, Emission { uses_floats: true, ..m }, *operand).line("movq xmm0, rax"@).line("FLOAT_NEG"@).line(
                    "XMM0_TO_RAX"@,
                )
            } else {
                gen(t, Emission { uses_ints: true, ..m }, *operand).line("INT_NEG"@)
            },
            UnaryOperator::Not => gen(t, Emission { uses_ints: true, ..m }, *operand).line("INT_NOT"@),
        },
        Expr::PropertyCheck { value, property } => property_code(t, gen(t, m, *value), *value, property),
        Expr::TypeCheck { value, type_noun } => match pred_tag_at(t, *value) {
            Some(tag) => type_check_folded(m, tag, type_noun),
            None => type_check_test(t, gen(t, m, *value), *value, type_noun),
        },
        Expr::Cast { value, target_type, radix } => cast_code(t, gen(t, m, *value), *value, target_type, radix),
        Expr::TreatingAs { value, match_value, replacement } => if dispatch_of(
            t.subject_tag(*value),
            t.clause_tag(*match_value),
            t.clause_tag(*replacement),
        ) {
            let skip = m.next_label("treating_tagged_skip"@);
            let m1 = m.take_label();
            let done = m1.next_label("treating_tagged_done"@);
            let m2 = m1.take_label();
            let m3 = tag_into_r11(gen(t, m2, *value), some_tag(t.subject_tag(*value)), "subject"@).line(
                "push rax  ; subject value"@,
            ).line("push r11  ; subject tag"@);
            let m4 = match some_tag(t.clause_tag(*match_value)) {
                ClauseTag::Static(tag) => {
                    let a = m3.line("cmp r11, "@ + dec_nat(tag as nat) + "  ; subject tag == match tag?"@).line(
                        "jne "@ + skip + "  ; different types can never be equal"@,
                    );
                    if tag == 1 {
                        Emission {
                            uses_strings: true,
                            ..gen(t, a, *match_value).line("mov rsi, rax  ; match text"@).line(
                                "mov rdi, [rsp+8]  ; subject text"@,
                            ).line("call _str_eq"@).line("test rax, rax"@).line("jz "@ + skip)
                        }
                    } else {
                        gen(t, a, *match_value).line("mov rbx, rax  ; match value"@).line(
                            "mov rax, [rsp+8]  ; subject value"@,
                        ).line("cmp rax, rbx"@).line("jne "@ + skip)
                    }
                },
                ClauseTag::Runtime(src) => {
                    let bytes = m3.next_label("treating_tagged_bytes"@);
                    let n1 = m3.take_label();
                    let fired = n1.next_label("treating_tagged_fired"@);
                    let g = tag_into_r11(gen(t, n1.take_label(), *match_value), ClauseTag::Runtime(src), "match"@);
                    Emission {
                        uses_strings: true,
                        ..g.line("mov rbx, [rsp]  ; subject tag"@).line("cmp r11, rbx  ; subject tag == match tag?"@).line(
                            "jne "@ + skip + "  ; different types can never be equal"@,
                        ).line("cmp r11, 1  ; text compares by bytes"@).line("je "@ + bytes).line(
                            "mov rbx, [rsp+8]  ; subject value"@,
                        ).line("cmp rax, rbx"@).line("jne "@ + skip).line("jmp "@ + fired).label_here(bytes).line(
                            "mov rsi, rax  ; match text"@,
                        ).line("mov rdi, [rsp+8]  ; subject text"@).line("call _str_eq"@).line("test rax, rax"@).line(
                            "jz "@ + skip,
                        ).label_here(fired)
                    }
                },
            };
            tag_into_r11(
                gen(t, m4.line("add rsp, 16  ; discard the saved subject"@), *replacement),
                some_tag(t.clause_tag(*replacement)),
                "replacement"@,
            ).line("jmp "@ + done).label_here(skip).line("pop r11  ; subject tag"@).line("pop rax  ; subject value"@).label_here(
                done,
            )
        } else {
            let skip = m.next_label("treating_skip"@);
            let m1 = m.take_label();
            let done = m1.next_label("treating_done"@);
            let m2 = m1.take_label();
            let is_buffer = *value matches Expr::Identifier(n) && t.tracked_type(n@) == Some(VarType::Buffer);
            let mt = type_at(t, *match_value);
            let cannot_be_text = mt == Some(VarType::Integer) || mt == Some(VarType::Float) || mt == Some(VarType::Boolean);
            if (is_buffer || type_at(t, *value) == Some(VarType::Text)) && !cannot_be_text {
                let m3 = gen(t, Emission { uses_strings: true, ..m2 }, *value).line(
                    "push rax  ; save original value (struct ptr if buffer)"@,
                );
                let m4 = if is_buffer {
                    gen(
                        t,
                        m3.line("mov rdi, rax"@).line("call _buffer_length"@).line("mov rdx, rax  ; len1"@).line(
                            "mov rdi, [rsp]"@,
                        ).line("call _buffer_data"@).line("mov rdi, rax  ; ptr1 = data"@),
                        *match_value,
                    ).line("mov rsi, rax  ; ptr2 = match"@).line("push rdi"@).line("push rsi"@).line("push rdx"@).line(
                        "mov rdi, rsi"@,
                    ).line("call _str_len"@).line("mov rcx, rax  ; len2"@).line("pop rdx"@).line("pop rsi"@).line(
                        "pop rdi"@,
                    ).line("call _mem_eq"@)
                } else {
                    gen(t, m3.line("mov rdi, rax  ; comparison ptr in rdi"@), *match_value).line(
                        "mov rsi, rax  ; match value in rsi"@,
                    ).line("call _str_eq"@)
                };
                gen(t, m4.line("test rax, rax"@).line("jz "@ + skip).line("add rsp, 8  ; discard saved value"@), *replacement).line(
                    "jmp "@ + done,
                ).label_here(skip).line("pop rax  ; restore original value"@).label_here(done)
            } else {
                let m3 = gen(t, gen(t, m2, *value).line("push rax  ; save original value"@), *match_value).line(
                    "mov rbx, rax  ; match value"@,
                ).line("pop rax  ; restore original value"@).line("cmp rax, rbx"@).line("jne "@ + skip);
                gen(t, m3, *replacement).line("jmp "@ + done).label_here(skip).label_here(done)
            }
        },
        Expr::BinaryOp { left, op, right } => {
            let eqne = op == BinaryOperator::Equal || op == BinaryOperator::NotEqual;
            let equal = op == BinaryOperator::Equal;
            if eqne && (*left is NothingLit || *right is NothingLit) {
                if *left is NothingLit && *right is NothingLit {
                    m.line(truth_line(equal, "  ; nothing is nothing"@))
                } else if *left is NothingLit {
                    match tag_at(t, *right) {
                        Some(tag) => nothing_folded(m, tag, equal),
                        None => nothing_tag_test(t, gen(t, m, *right), *right, equal),
                    }
                } else {
                    match tag_at(t, *left) {
                        Some(tag) => nothing_folded(m, tag, equal),
                        None => nothing_tag_test(t, gen(t, m, *left), *left, equal),
                    }
                }
            } else if floats_in(t, *left) || floats_in(t, *right) {
                float_left_done(
                    gen(
                        t,
                        float_right_done(gen(t, Emission { uses_floats: true, ..m }, *right), float_at(t, *right)),
                        *left,
                    ),
                    float_at(t, *left),
                    op,
                )
            } else if eqne && ((stringy_at(t, *left) && never_stringy_at(t, *right)) || (stringy_at(t, *right)
                && never_stringy_at(t, *left))) {
                m.line(truth_line(!equal, "  ; stringy vs non-stringy operand: never equal"@))
            } else {
                let arith = arithmetic_operator(op);
                int_tail(
                    checked(
                        t,
                        arith,
                        gen(t, checked(t, arith, gen(t, int_head(m, arith), *right), *right).line("push rax"@), *left),
                        *left,
                    ),
                    op,
                )
            }
        },
        _ => m,
    }
}

/// The code of a binary operator: a comparison with `nothing` reads tags;
/// a float operation evaluates right then left into xmm1 and xmm0; a text
/// compared with what can never be one folds to its answer; anything else
/// evaluates right, saves it, evaluates left, and applies the integer
/// operator.
pub open spec fn binary_code(t: CodeGenerator, m: Emission, e: Expr) -> Emission {
    match e {
        Expr::BinaryOp { left, op, right } => {
            let eqne = op == BinaryOperator::Equal || op == BinaryOperator::NotEqual;
            if eqne && (*left is NothingLit || *right is NothingLit) {
                nothing_compare_code(t, m, e)
            } else if floats_in(t, *left) || floats_in(t, *right) {
                float_binary_code(t, m, e)
            } else if eqne && ((stringy_at(t, *left) && never_stringy_at(t, *right)) || (stringy_at(t, *right)
                && never_stringy_at(t, *left))) {
                m.line(truth_line(op != BinaryOperator::Equal, "  ; stringy vs non-stringy operand: never equal"@))
            } else {
                int_binary_code(t, m, e)
            }
        },
        _ => m,
    }
}

/// The code of `==` or `!=` with `nothing` on a side: the other side's
/// tag decides, folded when it is known at emit time.
pub open spec fn nothing_compare_code(t: CodeGenerator, m: Emission, e: Expr) -> Emission {
    match e {
        Expr::BinaryOp { left, op, right } => {
            let equal = op == BinaryOperator::Equal;
            if *left is NothingLit && *right is NothingLit {
                m.line(truth_line(equal, "  ; nothing is nothing"@))
            } else if *left is NothingLit {
                match tag_at(t, *right) {
                    Some(tag) => nothing_folded(m, tag, equal),
                    None => nothing_tag_test(t, gen(t, m, *right), *right, equal),
                }
            } else {
                match tag_at(t, *left) {
                    Some(tag) => nothing_folded(m, tag, equal),
                    None => nothing_tag_test(t, gen(t, m, *left), *left, equal),
                }
            }
        },
        _ => m,
    }
}

/// The code of a float operation: the right operand made a float and
/// saved, the left made a float, and the operator applied.
pub open spec fn float_binary_code(t: CodeGenerator, m: Emission, e: Expr) -> Emission {
    match e {
        Expr::BinaryOp { left, op, right } => float_left_done(
            gen(
                t,
                float_right_done(gen(t, Emission { uses_floats: true, ..m }, *right), float_at(t, *right)),
                *left,
            ),
            float_at(t, *left),
            op,
        ),
        _ => m,
    }
}

/// The code of an integer operation: the right operand evaluated and
/// saved, the left evaluated, and the operator applied; an arithmetic
/// operator first clears the error flag and checks each operand for
/// `nothing`.
pub open spec fn int_binary_code(t: CodeGenerator, m: Emission, e: Expr) -> Emission {
    match e {
        Expr::BinaryOp { left, op, right } => {
            let arith = arithmetic_operator(op);
            int_tail(
                checked(
                    t,
                    arith,
                    gen(t, checked(t, arith, gen(t, int_head(m, arith), *right), *right).line("push rax"@), *left),
                    *left,
                ),
                op,
            )
        },
        _ => m,
    }
}

/// Before an integer operator's operands: the integer routines noted, and
/// the error flag cleared before arithmetic.
pub open spec fn int_head(m: Emission, arith: bool) -> Emission {
    if arith {
        Emission { uses_ints: true, ..m }.line("CLEAR_LAST_ERROR  ; clear error before arithmetic"@)
    } else {
        Emission { uses_ints: true, ..m }
    }
}

/// After an operand is in rax: checked for `nothing` when it is an
/// arithmetic operand.
pub open spec fn checked(t: CodeGenerator, arith: bool, m: Emission, e: Expr) -> Emission {
    if arith {
        nothing_check(t, m, e)
    } else {
        m
    }
}

/// After both operands: the right one popped into rbx and the operator
/// applied.
pub open spec fn int_tail(m: Emission, op: BinaryOperator) -> Emission {
    m.line("pop rbx"@).lines(int_op_lines(op))
}


impl CodeGenerator {
    /// Whether `e` names a thing.
    fn names_a_thing(&self, e: &Expr) -> (r: bool)
        ensures
            r == names_thing(*self, *e),
    {
        match e {
            Expr::Identifier(n) => match self.declared_types.get(n.as_str()) {
                Some(Type::Thing(_)) => true,
                _ => false,
            },
            _ => false,
        }
    }

    /// Whether [`CodeGenerator::generate_expr`] lowers `e`.
    pub fn can_lower(&self, e: &Expr) -> (r: bool)
        ensures
            r == lowerable(*self, *e),
        decreases e,
    {
        reveal_with_fuel(lowerable, 1);
        match e {
            Expr::IntegerLit(_) | Expr::FloatLit(_) | Expr::BoolLit(_) | Expr::NothingLit | Expr::StringLit(_)
            | Expr::Range { .. } | Expr::LastError | Expr::ArgumentName | Expr::EnvironmentVariableCount
            | Expr::EnvironmentVariableFirst | Expr::EnvironmentVariableLast | Expr::EnvironmentVariableEmpty
            | Expr::CurrentTime | Expr::Fork | Expr::ReapedStatus => true,
            Expr::Identifier(n) => self.get_var(n.as_str()).is_some() || self.global_var_label(n.as_str()).is_some(),
            Expr::ListLit { elements } => elements.len() == 0,
            Expr::MapLit { pairs } => pairs.len() == 0,
            Expr::EnvironmentVariable { name } => self.can_lower(name),
            Expr::EnvironmentVariableExists { name } => self.can_lower(name),
            Expr::EnvironmentVariableAt { index } => self.can_lower(index),
            Expr::ReapChild { pid, .. } => match pid {
                Some(p) => self.can_lower(p),
                None => true,
            },
            Expr::UnaryOp { operand, .. } => self.can_lower(operand),
            Expr::PropertyCheck { value, .. } => self.can_lower(value),
            Expr::TypeCheck { value, type_noun } => {
                proof {
                    lemma_decisions_at(*self, *self, **value);
                }
                let scalar = match type_noun {
                    Type::Integer | Type::Float | Type::Text | Type::Boolean => true,
                    _ => false,
                };
                scalar && (self.predicate_static_tag(value).is_some() || self.can_lower(value))
            },
            Expr::Cast { value, target_type, .. } => {
                proof {
                    lemma_decisions_at(*self, *self, **value);
                }
                let text_ok = match target_type {
                    Type::Text => self.infer_expr_type(value) == Some(VarType::Text),
                    _ => true,
                };
                text_ok && self.can_lower(value)
            },
            Expr::TreatingAs { value, match_value, replacement } => self.can_lower(value) && self.can_lower(
                match_value,
            ) && self.can_lower(replacement),
            Expr::BinaryOp { left, op, right } => {
                proof {
                    lemma_lowerable_binary(*self, *e);
                    lemma_decisions_at(*self, *self, **left);
                    lemma_decisions_at(*self, *self, **right);
                }
                let eqne = match op {
                    BinaryOperator::Equal | BinaryOperator::NotEqual => true,
                    _ => false,
                };
                if eqne && (self.names_a_thing(left) || self.names_a_thing(right)) {
                    false
                } else if eqne && (self.is_nothing_expr(left) || self.is_nothing_expr(right)) {
                    if self.is_nothing_expr(left) && self.is_nothing_expr(right) {
                        true
                    } else if self.is_nothing_expr(left) {
                        self.emit_time_expr_tag(right).is_some() || self.can_lower(right)
                    } else {
                        self.emit_time_expr_tag(left).is_some() || self.can_lower(left)
                    }
                } else if self.has_float_operands(left) || self.has_float_operands(right) {
                    self.can_lower(left) && self.can_lower(right)
                } else if eqne && self.is_stringy_type_mismatch(left, right) {
                    true
                } else if eqne && (self.is_stringy_expr(left) || self.is_stringy_expr(right)) {
                    false
                } else {
                    self.can_lower(left) && self.can_lower(right)
                }
            },
            _ => false,
        }
    }

    /// After a read that may give a null text: substitute the shared empty
    /// text and raise the error flag on null, clear the flag otherwise.
    pub fn emit_text_or_empty_on_null(&mut self, label_prefix: &str)
        ensures
            final(self).emission() == text_or_empty(old(self).emission(), label_prefix@),
            final(self).same_tables(old(self)),
    {
        let missing_prefix = cat2(label_prefix, "_missing");
        let missing_label = self.fresh(missing_prefix.as_str());
        let done_prefix = cat2(label_prefix, "_done");
        let done_label = self.fresh(done_prefix.as_str());
        self.put("test rax, rax");
        self.put(cat3("jz ", missing_label.as_str(), "  ; out of range").as_str());
        self.put("CLEAR_LAST_ERROR  ; in range");
        self.put(cat2("jmp ", done_label.as_str()).as_str());
        self.put_label(missing_label.as_str());
        let empty_label = self.empty_text();
        self.put(cat3("lea rax, [rel ", empty_label.as_str(), "]  ; empty text for out-of-range positional read").as_str());
        self.put("SET_LAST_ERROR 1  ; out of range");
        self.put_label(done_label.as_str());
    }
}


impl CodeGenerator {
    /// After an arithmetic operand is in rax: raise the error flag when it
    /// is `nothing`.
    pub fn emit_nothing_operand_check(&mut self, e: &Expr)
        ensures
            final(self).emission() == nothing_check(*old(self), old(self).emission(), *e),
            final(self).same_tables(old(self)),
    {
        proof {
            lemma_decisions_at(*self, *self, *e);
        }
        // Provably nothing: no test needed, the operand always is.
        if self.emit_time_expr_tag(e) == Some(TAG_NOTHING) {
            self.put("SET_LAST_ERROR 1  ; nothing in arithmetic (static)");
            return;
        }
        let src = match self.runtime_tag_source(e) {
            Some(src) => src,
            None => {
                return;
            },
        };
        if let Some(operand) = src.shadow_operand() {
            self.put(cat3("movzx r11, byte ", operand.as_str(), "  ; operand tag (shadow slot)").as_str());
        }
        let ok = self.fresh("arith_not_nothing");
        self.put("cmp r11, 6  ; nothing operand?");
        self.put(cat2("jne ", ok.as_str()).as_str());
        self.put("SET_LAST_ERROR 1  ; nothing in arithmetic");
        self.put_label(ok.as_str());
    }

    /// After an environment variable's name is in rax: look it up.
    fn emit_env_lookup(&mut self)
        ensures
            final(self).emission() == env_lookup(old(self).emission()),
            final(self).same_tables(old(self)),
    {
        self.put("mov rdi, rax");
        self.put("call _get_env");
        let missing_label = self.fresh("env_missing");
        let done_label = self.fresh("env_done");
        self.put("test rax, rax");
        self.put(cat3("jz ", missing_label.as_str(), "  ; env var not set").as_str());
        self.put("CLEAR_LAST_ERROR  ; env var found");
        self.put(cat2("jmp ", done_label.as_str()).as_str());
        self.put_label(missing_label.as_str());
        let empty_label = self.empty_text();
        self.put(cat3("lea rax, [rel ", empty_label.as_str(), "]  ; empty text for missing env var").as_str());
        self.put("SET_LAST_ERROR 1  ; env var not set");
        self.put_label(done_label.as_str());
    }

    /// Lower `e`, which leaves its value in rax. Returns whether `e` is a
    /// form lowered here ([`lowerable`]); when it is not, nothing is
    /// emitted.
    pub fn generate_expr(&mut self, e: &Expr) -> (lowered: bool)
        ensures
            lowered == lowerable(*old(self), *e),
            lowered ==> final(self).emission() == gen(*old(self), old(self).emission(), *e),
            final(self).same_tables(old(self)),
            !lowered ==> *final(self) == *old(self),
    {
        if !self.can_lower(e) {
            return false;
        }
        let ghost t = *self;
        self.lower_expr(e, Ghost(t));
        true
    }

    fn lower_expr(&mut self, e: &Expr, Ghost(t): Ghost<CodeGenerator>)
        requires
            old(self).same_tables(&t),
            lowerable(t, *e),
        ensures
            final(self).same_tables(&t),
            final(self).emission() == gen(t, old(self).emission(), *e),
        decreases e, 2int,
    {
        reveal_with_fuel(lowerable, 1);
        match e {
            Expr::IntegerLit(_) | Expr::FloatLit(_) | Expr::BoolLit(_) | Expr::NothingLit | Expr::StringLit(_)
            | Expr::Identifier(_) | Expr::ListLit { .. } | Expr::MapLit { .. } => self.lower_literal(e, Ghost(t)),
            Expr::Range { .. } | Expr::LastError | Expr::ArgumentName | Expr::EnvironmentVariableCount
            | Expr::EnvironmentVariableFirst | Expr::EnvironmentVariableLast
            | Expr::EnvironmentVariableEmpty => self.lower_runtime_read(e, Ghost(t)),
            Expr::CurrentTime | Expr::Fork | Expr::ReapedStatus => self.lower_process_read(e, Ghost(t)),
            Expr::BinaryOp { .. } => self.lower_binary(e, Ghost(t)),
            Expr::UnaryOp { .. } | Expr::PropertyCheck { .. } => self.lower_operator(e, Ghost(t)),
            Expr::TypeCheck { .. } => self.lower_type_check(e, Ghost(t)),
            Expr::Cast { .. } => self.lower_cast(e, Ghost(t)),
            Expr::TreatingAs { .. } => self.lower_treating(e, Ghost(t)),
            Expr::EnvironmentVariable { .. } | Expr::EnvironmentVariableAt { .. }
            | Expr::EnvironmentVariableExists { .. } | Expr::ReapChild { .. } => self.lower_compound(e, Ghost(t)),
            _ => {},
        }
    }

    /// `value is a <noun>`: folded when `value`'s tag is known at emit time,
    /// else read from its runtime tag.
    #[verifier::spinoff_prover]
    fn lower_type_check(&mut self, e: &Expr, Ghost(t): Ghost<CodeGenerator>)
        requires
            old(self).same_tables(&t),
            lowerable(t, *e),
            *e is TypeCheck,
        ensures
            final(self).same_tables(&t),
            final(self).emission() == gen(t, old(self).emission(), *e),
        decreases e, 1int,
    {
        reveal_with_fuel(gen, 1);
        reveal_with_fuel(lowerable, 1);
        if let Expr::TypeCheck { value, type_noun } = e {
            proof {
                lemma_decisions_at(*self, t, **value);
            }
            let (target, noun): (u8, &str) = match type_noun {
                Type::Integer => (TAG_INTEGER, "number"),
                Type::Float => (TAG_FLOAT, "float"),
                Type::Text => (TAG_STRING, "text"),
                _ => (TAG_BOOLEAN, "boolean"),
            };
            assert(target == scalar_target_tag(*type_noun) && noun@ == scalar_noun(*type_noun));
            match self.predicate_static_tag(value) {
                Some(tag) => {
                    let head = if tag == target {
                        "mov rax, 1"
                    } else {
                        "mov rax, 0"
                    };
                    let n = u64_text(tag as u64);
                    let front = cat4(head, "  ; is a ", noun, " folded (static tag ");
                    self.put(cat3(front.as_str(), n.as_str(), ")").as_str());
                    proof {
                        assert(head@ + "  ; is a "@ + noun@ + " folded (static tag "@ + dec_nat(tag as nat) + ")"@
                            =~= head@ + ("  ; is a "@ + noun@ + " folded (static tag "@ + dec_nat(tag as nat) + ")"@));
                    }
                },
                None => {
                    self.lower_expr(value, Ghost(t));
                    self.emit_type_tag_test(value, type_noun, target, noun, Ghost(t));
                },
            }
        }
    }

    /// After `value` is in rax: compare its runtime tag with the noun's, or
    /// answer as for a number when it carries none.
    #[verifier::spinoff_prover]
    fn emit_type_tag_test(&mut self, value: &Expr, type_noun: &Type, target: u8, noun: &str, Ghost(t): Ghost<CodeGenerator>)
        requires
            old(self).same_tables(&t),
            target == scalar_target_tag(*type_noun),
            noun@ == scalar_noun(*type_noun),
        ensures
            final(self).same_tables(&t),
            final(self).emission() == type_check_test(t, old(self).emission(), *value, *type_noun),
    {
        proof {
            lemma_decisions_at(*self, t, *value);
        }
        match self.runtime_tag_source(value) {
            Some(src) => {
                if let Some(operand) = src.shadow_operand() {
                    self.put(cat3("movzx r11, byte ", operand.as_str(), "  ; load mixed element tag").as_str());
                }
                self.put("xor rax, rax");
                let n = u64_text(target as u64);
                let front = cat3("TAG_EQ_IMM ", n.as_str(), "  ; is a ");
                self.put(cat3(front.as_str(), noun, "?").as_str());
            },
            None => {
                let head = match type_noun {
                    Type::Integer => "mov rax, 1",
                    _ => "mov rax, 0",
                };
                let front = cat3(head, "  ; is a ", noun);
                self.put(cat2(front.as_str(), ": no runtime tag, treated as number").as_str());
                proof {
                    assert(head@ + "  ; is a "@ + noun@ + ": no runtime tag, treated as number"@
                        =~= head@ + ("  ; is a "@ + noun@ + ": no runtime tag, treated as number"@));
                }
            },
        }
    }

    /// `value as a <type>`: the value, then its conversion.
    #[verifier::spinoff_prover]
    fn lower_cast(&mut self, e: &Expr, Ghost(t): Ghost<CodeGenerator>)
        requires
            old(self).same_tables(&t),
            lowerable(t, *e),
            *e is Cast,
        ensures
            final(self).same_tables(&t),
            final(self).emission() == gen(t, old(self).emission(), *e),
        decreases e, 1int,
    {
        reveal_with_fuel(gen, 1);
        reveal_with_fuel(lowerable, 1);
        if let Expr::Cast { value, target_type, radix } = e {
            self.lower_expr(value, Ghost(t));
            self.emit_cast_conversion(value, target_type, *radix, Ghost(t));
        }
    }

    /// After a cast's value is in rax: convert it to `target`.
    #[verifier::spinoff_prover]
    #[verifier::rlimit(60)]
    fn emit_cast_conversion(&mut self, value: &Expr, target: &Type, radix: u32, Ghost(t): Ghost<CodeGenerator>)
        requires
            old(self).same_tables(&t),
        ensures
            final(self).same_tables(&t),
            final(self).emission() == cast_code(t, old(self).emission(), *value, *target, radix),
    {
        proof {
            lemma_decisions_at(*self, t, *value);
        }
        match target {
            Type::Integer => {
                if self.is_float_expr(value) {
                    self.put("; Cast float to integer");
                    self.put("RAX_TO_XMM0");
                    self.put("cvttsd2si rax, xmm0");
                } else {
                    match self.infer_expr_type(value) {
                        Some(VarType::Buffer) => {
                            self.mark_ints();
                            self.mark_buffers();
                            self.emit_buffer_parse_head();
                            if radix == 10 {
                                self.put("mov rsi, r12  ; max length");
                                self.put("call _parse_i64_bounded");
                            } else {
                                let r = u64_text(radix as u64);
                                self.put(cat2("mov rsi, ", r.as_str()).as_str());
                                self.put("mov rdx, r12  ; max length");
                                self.put("call _parse_int_radix_bounded");
                            }
                            self.put("pop r12");
                            self.put("pop rbx");
                        },
                        Some(VarType::Text) => {
                            self.mark_ints();
                            self.put("mov rdi, rax");
                            if radix == 10 {
                                self.put("call _parse_i64");
                            } else {
                                let r = u64_text(radix as u64);
                                self.put(cat2("mov rsi, ", r.as_str()).as_str());
                                self.put("call _parse_int_radix");
                            }
                        },
                        _ => {},
                    }
                }
            },
            Type::Float => {
                if !self.is_float_expr(value) {
                    match self.infer_expr_type(value) {
                        Some(VarType::Buffer) => {
                            self.mark_floats();
                            self.mark_buffers();
                            self.emit_buffer_parse_head();
                            self.put("mov rsi, r12  ; max length");
                            self.put("call _parse_f64_bounded");
                            self.put("pop r12");
                            self.put("pop rbx");
                        },
                        Some(VarType::Text) => {
                            self.mark_floats();
                            self.put("mov rdi, rax");
                            self.put("call _parse_f64");
                        },
                        _ => {
                            self.mark_floats();
                            self.put("; Cast integer to float");
                            self.put("cvtsi2sd xmm0, rax");
                            self.put("XMM0_TO_RAX");
                        },
                    }
                }
            },
            Type::Boolean => {
                let src_type = self.infer_expr_type(value);
                match src_type {
                    Some(VarType::Text) | Some(VarType::Buffer) => {
                        // A text's truth is in its words, not its pointer.
                        self.mark_strings();
                        self.put("; Cast text/buffer to boolean");
                        self.put("test rax, rax");
                        let null_label = self.fresh("bool_null");
                        let done_label = self.fresh("bool_done");
                        self.put(cat2("jz ", null_label.as_str()).as_str());
                        if src_type == Some(VarType::Buffer) {
                            self.put("BUFFER_DATA_ADDR rax  ; buffer data area");
                        }
                        self.put("mov rdi, rax");
                        self.put("call _text_to_boolean");
                        self.put(cat2("jmp ", done_label.as_str()).as_str());
                        self.put_label(null_label.as_str());
                        self.put("xor rax, rax");
                        self.put_label(done_label.as_str());
                    },
                    _ => {
                        self.put("; Cast to boolean");
                        self.put("BOOL_FROM_RAX");
                    },
                }
            },
            Type::Text => {},
            _ => {
                self.put("; Cast (no-op)");
            },
        }
    }

    /// Save rbx and r12, and put a buffer's length in r12 and its data in
    /// rdi.
    fn emit_buffer_parse_head(&mut self)
        ensures
            final(self).same_tables(old(self)),
            final(self).emission() == buffer_parse_head(old(self).emission()),
    {
        self.put("push rbx");
        self.put("push r12");
        self.put("mov rbx, rax  ; save buffer pointer");
        self.put("mov rdi, rbx");
        self.put("call _buffer_length");
        self.put("mov r12, rax  ; save length");
        self.put("mov rdi, rbx");
        self.put("call _buffer_data");
        self.put("mov rdi, rax");
    }

    /// `value treating match as replacement`: dispatched on runtime tags
    /// when one decides, else compared by bytes or in registers.
    #[verifier::spinoff_prover]
    fn lower_treating(&mut self, e: &Expr, Ghost(t): Ghost<CodeGenerator>)
        requires
            old(self).same_tables(&t),
            lowerable(t, *e),
            *e is TreatingAs,
        ensures
            final(self).same_tables(&t),
            final(self).emission() == gen(t, old(self).emission(), *e),
        decreases e, 1int,
    {
        reveal_with_fuel(lowerable, 1);
        proof {
            lemma_gen_treating(t, self.emission(), *e);
        }
        if let Expr::TreatingAs { value, match_value, replacement } = e {
            proof {
                lemma_same_tables_decide(*self, t, **value);
                lemma_same_tables_decide(*self, t, **match_value);
                lemma_same_tables_decide(*self, t, **replacement);
            }
            if self.treating_dispatches_on_runtime_tag(value, match_value, replacement) {
                self.lower_treating_tagged(value, match_value, replacement, Ghost(t), Ghost(*e));
                return;
            }
            let skip_label = self.fresh("treating_skip");
            let done_label = self.fresh("treating_done");
            proof {
                lemma_decisions_at(*self, t, **value);
                lemma_decisions_at(*self, t, **match_value);
                lemma_same_tables_fields(*self, t);
            }
            let treating_type = self.infer_expr_type(value);
            let is_buffer = match &**value {
                Expr::Identifier(name) => match self.variable_types.get(name.as_str()) {
                    Some(VarType::Buffer) => true,
                    _ => false,
                },
                _ => false,
            };
            // A match that can never be text can never equal a text
            // subject, and comparing bytes would read it as a pointer:
            // compare in registers instead.
            let match_cannot_be_text = match self.infer_expr_type(match_value) {
                Some(VarType::Integer) | Some(VarType::Float) | Some(VarType::Boolean) => true,
                _ => false,
            };
            if (is_buffer || treating_type == Some(VarType::Text)) && !match_cannot_be_text {
                self.emit_treating_by_bytes(value, match_value, replacement, is_buffer, &skip_label, &done_label, Ghost(t), Ghost(*e));
            } else {
                self.emit_treating_in_registers(value, match_value, replacement, &skip_label, &done_label, Ghost(t), Ghost(*e));
            }
        }
    }

    /// `treating` compared by bytes: a buffer subject by its own length and
    /// data, never a scan for a NUL among stale bytes.
    #[verifier::spinoff_prover]
    #[verifier::rlimit(60)]
    fn emit_treating_by_bytes(
        &mut self,
        value: &Expr,
        match_value: &Expr,
        replacement: &Expr,
        is_buffer: bool,
        skip_label: &String,
        done_label: &String,
        Ghost(t): Ghost<CodeGenerator>,
        Ghost(whole): Ghost<Expr>,
    )
        requires
            old(self).same_tables(&t),
            whole matches Expr::TreatingAs { value: v, match_value: mv, replacement: r } && *v == *value && *mv
                == *match_value && *r == *replacement,
            lowerable(t, *value),
            lowerable(t, *match_value),
            lowerable(t, *replacement),
            is_buffer == subject_is_buffer(t, *value),
        ensures
            final(self).emission() == treating_bytes_code(
                t,
                old(self).emission(),
                *value,
                *match_value,
                *replacement,
                skip_label@,
                done_label@,
            ),
            final(self).same_tables(&t),
        decreases whole, 0int,
    {
        self.mark_strings();
        self.lower_expr(value, Ghost(t));
        self.put("push rax  ; save original value (struct ptr if buffer)");
        if is_buffer {
            self.put("mov rdi, rax");
            self.put("call _buffer_length");
            self.put("mov rdx, rax  ; len1");
            self.put("mov rdi, [rsp]");
            self.put("call _buffer_data");
            self.put("mov rdi, rax  ; ptr1 = data");
            self.lower_expr(match_value, Ghost(t));
            self.put("mov rsi, rax  ; ptr2 = match");
            self.put("push rdi");
            self.put("push rsi");
            self.put("push rdx");
            self.put("mov rdi, rsi");
            self.put("call _str_len");
            self.put("mov rcx, rax  ; len2");
            self.put("pop rdx");
            self.put("pop rsi");
            self.put("pop rdi");
            self.put("call _mem_eq");
        } else {
            self.put("mov rdi, rax  ; comparison ptr in rdi");
            self.lower_expr(match_value, Ghost(t));
            self.put("mov rsi, rax  ; match value in rsi");
            self.put("call _str_eq");
        }
        self.put("test rax, rax");
        self.put(cat2("jz ", skip_label.as_str()).as_str());
        self.put("add rsp, 8  ; discard saved value");
        self.lower_expr(replacement, Ghost(t));
        self.put(cat2("jmp ", done_label.as_str()).as_str());
        self.put_label(skip_label.as_str());
        self.put("pop rax  ; restore original value");
        self.put_label(done_label.as_str());
    }

    /// `treating` compared in registers.
    #[verifier::spinoff_prover]
    fn emit_treating_in_registers(
        &mut self,
        value: &Expr,
        match_value: &Expr,
        replacement: &Expr,
        skip_label: &String,
        done_label: &String,
        Ghost(t): Ghost<CodeGenerator>,
        Ghost(whole): Ghost<Expr>,
    )
        requires
            old(self).same_tables(&t),
            whole matches Expr::TreatingAs { value: v, match_value: mv, replacement: r } && *v == *value && *mv
                == *match_value && *r == *replacement,
            lowerable(t, *value),
            lowerable(t, *match_value),
            lowerable(t, *replacement),
        ensures
            final(self).emission() == treating_registers_code(
                t,
                old(self).emission(),
                *value,
                *match_value,
                *replacement,
                skip_label@,
                done_label@,
            ),
            final(self).same_tables(&t),
        decreases whole, 0int,
    {
        self.lower_expr(value, Ghost(t));
        self.put("push rax  ; save original value");
        self.lower_expr(match_value, Ghost(t));
        self.put("mov rbx, rax  ; match value");
        self.put("pop rax  ; restore original value");
        self.put("cmp rax, rbx");
        self.put(cat2("jne ", skip_label.as_str()).as_str());
        self.lower_expr(replacement, Ghost(t));
        self.put(cat2("jmp ", done_label.as_str()).as_str());
        self.put_label(skip_label.as_str());
        self.put_label(done_label.as_str());
    }

    fn lower_literal(&mut self, e: &Expr, Ghost(t): Ghost<CodeGenerator>)
        requires
            old(self).same_tables(&t),
            lowerable(t, *e),
            *e is IntegerLit || *e is FloatLit || *e is BoolLit || *e is NothingLit || *e is StringLit || *e is Identifier
                || *e is ListLit || *e is MapLit,
        ensures
            final(self).same_tables(&t),
            final(self).emission() == gen(t, old(self).emission(), *e),
    {
        reveal_with_fuel(lowerable, 1);
        reveal_with_fuel(gen, 1);
        let ghost start = self.emission();
        match e {
            Expr::IntegerLit(n) => {
                let n = crate::text::i64_text(*n);
                self.put(cat2("mov rax, ", n.as_str()).as_str());
            },
            Expr::FloatLit(f) => {
                self.mark_floats();
                let label = self.float_const(f);
                self.put(cat2("FLOAT_LOAD ", label.as_str()).as_str());
                self.put("XMM0_TO_RAX");
            },
            Expr::BoolLit(b) => {
                if *b {
                    self.put("mov rax, 1");
                } else {
                    self.put("mov rax, 0");
                }
                proof {
                    reveal_strlit("");
                    assert("mov rax, 1"@ =~= "mov rax, 1"@ + ""@);
                    assert("mov rax, 0"@ =~= "mov rax, 0"@ + ""@);
                }
            },
            Expr::NothingLit => {
                self.put("xor rax, rax  ; nothing literal, payload 0 (tag 6 set by caller)");
            },
            // A text literal is its own bytes, never a same-spelled name.
            Expr::StringLit(s) => {
                let label = self.text_const(s.as_str());
                self.put(cat3("lea rax, [rel ", label.as_str(), "]").as_str());
            },
            Expr::Identifier(name) => {
                proof {
                    lemma_same_tables_fields(*self, t);
                }
                self.put_load(name.as_str());
            },
            Expr::ListLit { .. } => self.emit_empty_list(),
            Expr::MapLit { .. } => self.emit_empty_map(),
            _ => {},
        }
    }

    fn lower_runtime_read(&mut self, e: &Expr, Ghost(t): Ghost<CodeGenerator>)
        requires
            old(self).same_tables(&t),
            lowerable(t, *e),
            *e is Range || *e is LastError || *e is ArgumentName || *e is EnvironmentVariableCount || *e is EnvironmentVariableFirst || *e is EnvironmentVariableLast || *e is EnvironmentVariableEmpty,
        ensures
            final(self).same_tables(&t),
            final(self).emission() == gen(t, old(self).emission(), *e),
    {
        reveal_with_fuel(gen, 1);
        match e {
            Expr::Range { .. } => {},
            Expr::LastError => {
                self.put("mov rax, [rel _last_error]");
            },
            Expr::ArgumentName => {
                self.put("xor rdi, rdi  ; index 0 - program name");
                self.put("call _get_arg");
            },
            Expr::EnvironmentVariableCount => {
                self.put("call _get_env_count");
            },
            Expr::EnvironmentVariableFirst => {
                self.put("xor rdi, rdi  ; index 0");
                self.put("call _get_env_at");
                self.emit_text_or_empty_on_null("env_first");
            },
            Expr::EnvironmentVariableLast => {
                self.put("call _get_env_count");
                self.put("dec rax  ; last index = count - 1");
                self.put("mov rdi, rax");
                self.put("call _get_env_at");
                self.emit_text_or_empty_on_null("env_last");
            },
            Expr::EnvironmentVariableEmpty => {
                self.put("call _get_env_count");
                self.put("test rax, rax");
                self.put("setz al  ; 1 if count == 0");
                self.put("movzx rax, al");
            },
            _ => {},
        }
    }

    fn lower_process_read(&mut self, e: &Expr, Ghost(t): Ghost<CodeGenerator>)
        requires
            old(self).same_tables(&t),
            lowerable(t, *e),
            *e is CurrentTime || *e is Fork || *e is ReapedStatus,
        ensures
            final(self).same_tables(&t),
            final(self).emission() == gen(t, old(self).emission(), *e),
    {
        reveal_with_fuel(gen, 1);
        match e {
            Expr::CurrentTime => {
                self.mark_time();
                self.put("; Get current time");
                self.put("TIME_GET");
            },
            Expr::Fork => {
                self.mark_proc();
                self.put("; fork() - 0 in child, child pid in parent, negative on error");
                self.put("FORK");
            },
            Expr::ReapedStatus => {
                self.put("; the reaped status - raw wait4 status word");
                self.put("mov rax, [rel _reaped_status]");
            },
            _ => {},
        }
    }

    fn lower_compound(&mut self, e: &Expr, Ghost(t): Ghost<CodeGenerator>)
        requires
            old(self).same_tables(&t),
            lowerable(t, *e),
            *e is EnvironmentVariable || *e is EnvironmentVariableAt || *e is EnvironmentVariableExists || *e is ReapChild,
        ensures
            final(self).same_tables(&t),
            final(self).emission() == gen(t, old(self).emission(), *e),
        decreases e, 0int,
    {
        reveal_with_fuel(gen, 1);
        reveal_with_fuel(lowerable, 1);
        match e {
            Expr::EnvironmentVariable { name } => {
                // A name that is not set reads as the empty text, with the
                // error flag raised: a fallible read, never a null.
                let ghost start = self.emission();
                self.lower_expr(name, Ghost(t));
                self.emit_env_lookup();
                assert(gen(t, start, *e) == env_lookup(gen(t, start, **name)));
            },
            Expr::EnvironmentVariableAt { index } => {
                self.lower_expr(index, Ghost(t));
                self.put("mov rdi, rax");
                self.put("call _get_env_at");
                self.emit_text_or_empty_on_null("env_at");
            },
            Expr::EnvironmentVariableExists { name } => {
                self.lower_expr(name, Ghost(t));
                self.put("mov rdi, rax");
                self.put("call _get_env");
                self.put("test rax, rax");
                self.put("setnz al");
                self.put("movzx rax, al  ; 1 if exists, 0 otherwise");
            },
            Expr::ReapChild { pid, no_hang } => {
                self.mark_proc();
                match pid {
                    None => {
                        self.put("mov rdi, -1  ; wait for any child");
                    },
                    Some(pid_expr) => {
                        self.lower_expr(pid_expr, Ghost(t));
                        self.put("mov rdi, rax  ; wait for this specific pid");
                    },
                }
                // A non-blocking reap passes WNOHANG.
                if *no_hang {
                    self.put("; wait4() with WNOHANG - non-blocking reap");
                    self.put("REAP_CHILD 1");
                } else {
                    self.put("; wait4() - reap a child, returns its pid (or -1 on error)");
                    self.put("REAP_CHILD 0");
                }
            },
            _ => {},
        }
    }
}


impl Emission {
    /// Adding instructions one after another.
    pub proof fn lemma_lines_push(self, ls: Seq<Seq<char>>, l: Seq<char>)
        ensures
            self.lines(ls.push(l)) == self.lines(ls).line(l),
            self.lines(Seq::empty()) == self,
    {
        assert(ls.push(l).map_values(|x: Seq<char>| indented(x)) =~= ls.map_values(|x: Seq<char>| indented(x)).push(
            indented(l),
        ));
        assert(self.code + Seq::<Seq<char>>::empty().map_values(|x: Seq<char>| indented(x)) =~= self.code);
        assert(self.lines(ls.push(l)) =~= self.lines(ls).line(l));
        assert(self.lines(Seq::empty()) =~= self);
    }
}

impl CodeGenerator {
    /// Apply an integer operator to rax and rbx.
    fn emit_int_op(&mut self, op: BinaryOperator)
        ensures
            final(self).emission() == old(self).emission().lines(int_op_lines(op)),
            final(self).same_tables(old(self)),
    {
        let ghost m = self.emission();
        proof {
            m.lemma_lines_push(Seq::empty(), int_op_lines(op)[0]);
            m.lemma_lines_push(seq!["mov cl, bl"@], "shl rax, cl"@);
            m.lemma_lines_push(seq!["mov cl, bl"@], "shr rax, cl"@);
            m.lemma_lines_push(Seq::empty(), "mov cl, bl"@);
            assert(seq!["mov cl, bl"@, "shl rax, cl"@] =~= seq!["mov cl, bl"@].push("shl rax, cl"@));
            assert(seq!["mov cl, bl"@, "shr rax, cl"@] =~= seq!["mov cl, bl"@].push("shr rax, cl"@));
            assert(seq![int_op_lines(op)[0]] =~= Seq::<Seq<char>>::empty().push(int_op_lines(op)[0]));
        }
        match op {
            BinaryOperator::Add => self.put("INT_ADD"),
            BinaryOperator::Subtract => self.put("INT_SUB"),
            BinaryOperator::Multiply => self.put("INT_MUL"),
            BinaryOperator::Divide => self.put("INT_DIV"),
            BinaryOperator::Modulo => self.put("INT_MOD"),
            BinaryOperator::Equal => self.put("INT_EQ"),
            BinaryOperator::NotEqual => self.put("INT_NE"),
            BinaryOperator::Greater => self.put("INT_GT"),
            BinaryOperator::Less => self.put("INT_LT"),
            BinaryOperator::GreaterEqual => self.put("INT_GE"),
            BinaryOperator::LessEqual => self.put("INT_LE"),
            BinaryOperator::And => self.put("INT_AND"),
            BinaryOperator::Or => self.put("INT_OR"),
            BinaryOperator::BitAnd => self.put("and rax, rbx"),
            BinaryOperator::BitOr => self.put("or rax, rbx"),
            BinaryOperator::BitXor => self.put("xor rax, rbx"),
            BinaryOperator::ShiftLeft => {
                self.put("mov cl, bl");
                self.put("shl rax, cl");
            },
            BinaryOperator::ShiftRight => {
                self.put("mov cl, bl");
                self.put("shr rax, cl");
            },
        }
    }

    /// Apply a float operator to xmm0 and xmm1.
    #[verifier::rlimit(50)]
    fn emit_float_op(&mut self, op: BinaryOperator)
        ensures
            final(self).emission() == old(self).emission().lines(float_op_lines(op)),
            final(self).same_tables(old(self)),
    {
        let ghost m = self.emission();
        match op {
            BinaryOperator::Add => self.put("FLOAT_ADD"),
            BinaryOperator::Subtract => self.put("FLOAT_SUB"),
            BinaryOperator::Multiply => self.put("FLOAT_MUL"),
            BinaryOperator::Divide => self.put("FLOAT_DIV"),
            BinaryOperator::Modulo => self.put("FLOAT_MOD"),
            BinaryOperator::Equal => self.put("FLOAT_EQ"),
            BinaryOperator::NotEqual => self.put("FLOAT_NE"),
            BinaryOperator::Greater => self.put("FLOAT_GT"),
            BinaryOperator::Less => self.put("FLOAT_LT"),
            BinaryOperator::GreaterEqual => self.put("FLOAT_GE"),
            BinaryOperator::LessEqual => self.put("FLOAT_LE"),
            _ => {
                // Logical and bitwise operators work on whole numbers.
                self.put("FLOAT_TO_INT");
                self.put("mov rbx, rax");
                self.put("RAX_TO_XMM0");
                self.put("FLOAT_TO_INT");
                match op {
                    BinaryOperator::And | BinaryOperator::BitAnd => self.put("and rax, rbx"),
                    BinaryOperator::Or | BinaryOperator::BitOr => self.put("or rax, rbx"),
                    BinaryOperator::BitXor => self.put("xor rax, rbx"),
                    BinaryOperator::ShiftLeft => {
                        self.put("mov cl, bl");
                        self.put("shl rax, cl");
                    },
                    _ => {
                        self.put("mov cl, bl");
                        self.put("shr rax, cl");
                    },
                }
            },
        }
        proof {
            let ls = float_op_lines(op);
            assert(m.lines(Seq::empty()) == m) by {
                m.lemma_lines_push(Seq::empty(), ""@);
            }
            let s1 = ls.take(1);
            let s2 = ls.take(2);
            let s3 = ls.take(3);
            let s4 = ls.take(4);
            let s5 = ls.take(5);
            m.lemma_lines_push(Seq::empty(), ls[0]);
            assert(s1 =~= Seq::<Seq<char>>::empty().push(ls[0]));
            if ls.len() > 1 {
                m.lemma_lines_push(s1, ls[1]);
                assert(s2 =~= s1.push(ls[1]));
                m.lemma_lines_push(s2, ls[2]);
                assert(s3 =~= s2.push(ls[2]));
                m.lemma_lines_push(s3, ls[3]);
                assert(s4 =~= s3.push(ls[3]));
                m.lemma_lines_push(s4, ls[4]);
                assert(s5 =~= s4.push(ls[4]));
                if ls.len() > 5 {
                    m.lemma_lines_push(s5, ls[5]);
                    assert(ls =~= s5.push(ls[5]));
                } else {
                    assert(ls =~= s5);
                }
            } else {
                assert(ls =~= s1);
            }
        }
    }
}


impl CodeGenerator {
    fn lower_operator(&mut self, e: &Expr, Ghost(t): Ghost<CodeGenerator>)
        requires
            old(self).same_tables(&t),
            lowerable(t, *e),
            *e is UnaryOp || *e is PropertyCheck,
        ensures
            final(self).same_tables(&t),
            final(self).emission() == gen(t, old(self).emission(), *e),
        decreases e, 1int,
    {
        reveal_with_fuel(gen, 1);
        reveal_with_fuel(lowerable, 1);
        match e {
            Expr::UnaryOp { op, operand } => {
                match op {
                    UnaryOperator::Negate => {
                        proof {
                            lemma_decisions_at(*self, t, **operand);
                        }
                        // A float is negated as a float, anything else as a
                        // whole number.
                        if self.infer_expr_type(operand) == Some(VarType::Float) {
                            self.mark_floats();
                            self.lower_expr(operand, Ghost(t));
                            self.put("movq xmm0, rax");
                            self.put("FLOAT_NEG");
                            self.put("XMM0_TO_RAX");
                        } else {
                            self.mark_ints();
                            self.lower_expr(operand, Ghost(t));
                            self.put("INT_NEG");
                        }
                    },
                    UnaryOperator::Not => {
                        self.mark_ints();
                        self.lower_expr(operand, Ghost(t));
                        self.put("INT_NOT");
                    },
                }
            },
            Expr::PropertyCheck { value, property } => {
                self.lower_expr(value, Ghost(t));
                proof {
                    lemma_same_tables_fields(*self, t);
                }
                self.emit_property_test(value, *property);
            },
            _ => {},
        }
    }

    /// After a property check's value is in rax: leave 1 in rax when it
    /// has the property, else 0.
    fn emit_property_test(&mut self, value: &Expr, property: Property)
        ensures
            final(self).emission() == property_code(*old(self), old(self).emission(), *value, property),
            final(self).same_tables(old(self)),
    {
        match property {
            Property::Even => self.put("INT_IS_EVEN"),
            Property::Odd => self.put("INT_IS_ODD"),
            Property::Zero => self.put("INT_IS_ZERO"),
            Property::Positive => self.put("INT_IS_POSITIVE"),
            Property::Negative => self.put("INT_IS_NEGATIVE"),
            Property::Empty => {
                // Buffers and lists keep their length at [rax+8]. A text is
                // empty when its first byte is NUL; a null text pointer is
                // read as "" rather than followed. A text literal is data,
                // never a name.
                let sized = match value {
                    Expr::Identifier(n) => match self.variable_types.get(n.as_str()) {
                        Some(VarType::Buffer) | Some(VarType::List) => true,
                        _ => false,
                    },
                    _ => false,
                };
                let text = match value {
                    Expr::StringLit(_) => true,
                    Expr::Identifier(n) => match self.variable_types.get(n.as_str()) {
                        Some(VarType::Text) => true,
                        _ => false,
                    },
                    _ => false,
                };
                if sized {
                    self.put("mov rax, [rax + 8]  ; get size/length");
                } else if text {
                    let label = self.empty_text();
                    self.put(cat3("lea rcx, [rel ", label.as_str(), "]  ; \"\" stands in for a null text").as_str());
                    self.put("test rax, rax");
                    self.put("cmovz rax, rcx");
                    self.put("movzx rax, byte [rax]  ; first byte: NUL means empty");
                }
                self.put("test rax, rax");
                self.put("setz al");
                self.put("movzx rax, al");
            },
        }
    }

    #[verifier::rlimit(50)]
    fn lower_binary(&mut self, e: &Expr, Ghost(t): Ghost<CodeGenerator>)
        requires
            old(self).same_tables(&t),
            lowerable(t, *e),
            *e is BinaryOp,
        ensures
            final(self).same_tables(&t),
            final(self).emission() == gen(t, old(self).emission(), *e),
        decreases e, 1int,
    {
        proof {
            lemma_gen_binary(t, old(self).emission(), *e);
        }
        match e {
            Expr::BinaryOp { left, op, right } => {
                proof {
                    lemma_decisions_at(*self, t, **left);
                    lemma_decisions_at(*self, t, **right);
                }
                let eqne = match op {
                    BinaryOperator::Equal | BinaryOperator::NotEqual => true,
                    _ => false,
                };
                let has_floats = self.has_float_operands(left) || self.has_float_operands(right);
                // `x is nothing` compares tags, and must come before the
                // payload comparisons: `0 is nothing` is false.
                if eqne && (self.is_nothing_expr(left) || self.is_nothing_expr(right)) {
                    self.lower_nothing_compare(e, Ghost(t));
                } else if has_floats {
                    self.lower_float_binary(e, Ghost(t));
                } else if eqne && self.is_stringy_type_mismatch(left, right) {
                    // A text never equals a value that cannot be one; neither
                    // operand is evaluated, so neither is read as a text.
                    let head = match op {
                        BinaryOperator::Equal => "mov rax, 0",
                        _ => "mov rax, 1",
                    };
                    self.put(cat2(head, "  ; stringy vs non-stringy operand: never equal").as_str());
                } else {
                    self.lower_int_binary(e, Ghost(t));
                }
            },
            _ => {},
        }
    }

    fn lower_nothing_compare(&mut self, e: &Expr, Ghost(t): Ghost<CodeGenerator>)
        requires
            old(self).same_tables(&t),
            lowerable(t, *e),
            *e matches Expr::BinaryOp { left, op, right } && (op == BinaryOperator::Equal || op
                == BinaryOperator::NotEqual) && (*left is NothingLit || *right is NothingLit),
        ensures
            final(self).same_tables(&t),
            final(self).emission() == nothing_compare_code(t, old(self).emission(), *e),
        decreases e, 0int,
    {
        proof {
            lemma_lowerable_binary(t, *e);
        }
        match e {
            Expr::BinaryOp { left, op, right } => {
                let equal = match op {
                    BinaryOperator::Equal => true,
                    _ => false,
                };
                if self.is_nothing_expr(left) && self.is_nothing_expr(right) {
                    let head = if equal {
                        "mov rax, 1"
                    } else {
                        "mov rax, 0"
                    };
                    self.put(cat2(head, "  ; nothing is nothing").as_str());
                } else if self.is_nothing_expr(left) {
                    self.lower_nothing_test(right, equal, Ghost(t));
                } else {
                    self.lower_nothing_test(left, equal, Ghost(t));
                }
            },
            _ => {},
        }
    }

    /// Put 1 in rax when `value` is (for `equal`) or is not `nothing`.
    fn lower_nothing_test(&mut self, value: &Expr, equal: bool, Ghost(t): Ghost<CodeGenerator>)
        requires
            old(self).same_tables(&t),
            tag_at(t, *value) is Some || lowerable(t, *value),
        ensures
            final(self).same_tables(&t),
            final(self).emission() == match tag_at(t, *value) {
                Some(tag) => nothing_folded(old(self).emission(), tag, equal),
                None => nothing_tag_test(t, gen(t, old(self).emission(), *value), *value, equal),
            },
        decreases value, 3int,
    {
        proof {
            lemma_decisions_at(*self, t, *value);
        }
        let not = if equal {
            ""
        } else {
            "not "
        };
        match self.emit_time_expr_tag(value) {
            Some(tag) => {
                let holds = if equal {
                    tag == TAG_NOTHING
                } else {
                    tag != TAG_NOTHING
                };
                let head = if holds {
                    "mov rax, 1"
                } else {
                    "mov rax, 0"
                };
                let n = u64_text(tag as u64);
                let front = cat4(head, "  ; is ", not, "nothing folded (static tag ");
                self.put(cat3(front.as_str(), n.as_str(), ")").as_str());
                proof {
                    let comment = "  ; is "@ + not@ + "nothing folded (static tag "@ + dec_nat(tag as nat) + ")"@;
                    assert(head@ + "  ; is "@ + not@ + "nothing folded (static tag "@ + dec_nat(tag as nat) + ")"@
                        =~= head@ + comment);
                }
            },
            None => {
                self.lower_expr(value, Ghost(t));
                proof {
                    lemma_decisions_at(*self, t, *value);
                }
                match self.runtime_tag_source(value) {
                    Some(src) => {
                        if let Some(operand) = src.shadow_operand() {
                            self.put(cat3("movzx r11, byte ", operand.as_str(), "  ; load mixed element tag").as_str());
                        }
                        self.put("xor rax, rax");
                        if equal {
                            self.put("TAG_EQ_IMM 6  ; is nothing?");
                        } else {
                            self.put("TAG_NE_IMM 6  ; is not nothing?");
                        }
                    },
                    // No tag anywhere, and r11 holds something unrelated: as
                    // far as the compiler can tell the value is not nothing.
                    None => {
                        let head = if equal {
                            "mov rax, 0"
                        } else {
                            "mov rax, 1"
                        };
                        self.put(cat4(head, "  ; is ", not, "nothing: operand carries no tag").as_str());
                        proof {
                            assert(head@ + "  ; is "@ + not@ + "nothing: operand carries no tag"@ =~= head@ + (
                            "  ; is "@ + not@ + "nothing: operand carries no tag"@));
                        }
                    },
                }
            },
        }
    }

    /// After a float operator's right operand is in rax: make it a float
    /// if it is a whole number, and save it.
    fn emit_float_right_done(&mut self, right_is_float: bool)
        ensures
            final(self).emission() == float_right_done(old(self).emission(), right_is_float),
            final(self).same_tables(old(self)),
    {
        if !right_is_float {
            self.put("INT_TO_FLOAT");
            self.put("XMM0_TO_RAX");
        }
        self.put("push rax");
    }

    /// After a float operator's left operand is in rax: move both operands
    /// to xmm0 and xmm1 and apply the operator.
    fn emit_float_left_done(&mut self, left_is_float: bool, op: BinaryOperator)
        ensures
            final(self).emission() == float_left_done(old(self).emission(), left_is_float, op),
            final(self).same_tables(old(self)),
    {
        if !left_is_float {
            self.put("INT_TO_FLOAT");
            self.put("XMM0_TO_RAX");
        }
        self.put("RAX_TO_XMM0");
        self.put("pop rax");
        self.put("RAX_TO_XMM1");
        self.emit_float_op(op);
        // A comparison or a logical operator already left its 0/1 in rax;
        // everything else leaves a float in xmm0.
        let truth = match op {
            BinaryOperator::Equal | BinaryOperator::NotEqual | BinaryOperator::Greater | BinaryOperator::Less
            | BinaryOperator::GreaterEqual | BinaryOperator::LessEqual | BinaryOperator::And
            | BinaryOperator::Or => true,
            _ => false,
        };
        let ghost before = self.emission();
        if !truth {
            self.put("XMM0_TO_RAX");
        }
        proof {
            before.lemma_lines_push(Seq::empty(), "XMM0_TO_RAX"@);
            assert(seq!["XMM0_TO_RAX"@] =~= Seq::<Seq<char>>::empty().push("XMM0_TO_RAX"@));
        }
    }

    fn lower_float_binary(&mut self, e: &Expr, Ghost(t): Ghost<CodeGenerator>)
        requires
            old(self).same_tables(&t),
            *e matches Expr::BinaryOp { left, right, .. } && lowerable(t, *left) && lowerable(t, *right),
        ensures
            final(self).same_tables(&t),
            final(self).emission() == float_binary_code(t, old(self).emission(), *e),
        decreases e, 0int,
    {
        match e {
            Expr::BinaryOp { left, op, right } => {
                self.mark_floats();
                proof {
                    lemma_decisions_at(*self, t, **left);
                    lemma_decisions_at(*self, t, **right);
                }
                let left_is_float = self.is_float_expr(left);
                let right_is_float = self.is_float_expr(right);
                self.lower_expr(right, Ghost(t));
                self.emit_float_right_done(right_is_float);
                self.lower_expr(left, Ghost(t));
                self.emit_float_left_done(left_is_float, *op);
            },
            _ => {},
        }
    }

    /// Before an integer operator's operands: note the integer routines,
    /// and clear the error flag before arithmetic.
    fn emit_int_prologue(&mut self, arith: bool)
        ensures
            final(self).emission() == (if arith {
                Emission { uses_ints: true, ..old(self).emission() }.line(
                    "CLEAR_LAST_ERROR  ; clear error before arithmetic"@,
                )
            } else {
                Emission { uses_ints: true, ..old(self).emission() }
            }),
            final(self).same_tables(old(self)),
    {
        self.mark_ints();
        if arith {
            self.put("CLEAR_LAST_ERROR  ; clear error before arithmetic");
        }
    }

    /// After an arithmetic operand is in rax: check it for `nothing`.
    fn emit_operand_check(&mut self, arith: bool, operand: &Expr, Ghost(t): Ghost<CodeGenerator>)
        requires
            old(self).same_tables(&t),
        ensures
            final(self).same_tables(&t),
            final(self).emission() == (if arith {
                nothing_check(t, old(self).emission(), *operand)
            } else {
                old(self).emission()
            }),
    {
        if arith {
            proof {
                lemma_decisions_at(*self, t, *operand);
                lemma_decisions_at(*self, *self, *operand);
            }
            self.emit_nothing_operand_check(operand);
        }
    }

    fn lower_int_binary(&mut self, e: &Expr, Ghost(t): Ghost<CodeGenerator>)
        requires
            old(self).same_tables(&t),
            *e matches Expr::BinaryOp { left, right, .. } && lowerable(t, *left) && lowerable(t, *right),
        ensures
            final(self).same_tables(&t),
            final(self).emission() == int_binary_code(t, old(self).emission(), *e),
        decreases e, 0int,
    {
        match e {
            Expr::BinaryOp { left, op, right } => {
                let arith = self.is_arithmetic_operator(op);
                self.emit_int_prologue(arith);
                self.lower_expr(right, Ghost(t));
                self.emit_operand_check(arith, right, Ghost(t));
                self.put("push rax");
                self.lower_expr(left, Ghost(t));
                self.emit_operand_check(arith, left, Ghost(t));
                self.put("pop rbx");
                self.emit_int_op(*op);
            },
            _ => {},
        }
    }
}

/// The store of rax into a variable's storage, commented with `name`.
pub open spec fn store_line(target: VarTarget, name: Seq<char>) -> Seq<char> {
    match target {
        VarTarget::Local(o) => "mov [rbp-"@ + dec_int(o as int) + "], rax  ; store "@ + name,
        VarTarget::Global(l) => "mov [rel "@ + l@ + "], rax  ; global store "@ + name,
    }
}

/// The code leaving the empty value of a pointer-typed slot in rax: the
/// shared empty text, a new empty list or a new empty map; nothing for
/// any other type, whose empty value is the number 0.
pub open spec fn empty_value_code(m: Emission, t: VarType) -> Emission {
    match t {
        VarType::Text => m.with_empty().line("lea rax, [rel "@ + m.empty_label() + "]  ; empty text"@),
        VarType::List => empty_list_code(m),
        VarType::Dict => empty_map_code(m),
        _ => m,
    }
}

/// The code leaving the float 0.0 in rax.
pub open spec fn float_zero_code(m: Emission) -> Emission {
    (Emission { uses_floats: true, ..m }).with_float_bits(0, "0"@).line("FLOAT_LOAD "@ + float_label(m.floats)).line(
        "XMM0_TO_RAX"@,
    )
}

/// The code writing the default value of a declared type into a
/// variable's storage, as a declaration without a value does.
pub open spec fn type_default_code(g: CodeGenerator, m: Emission, t: Type, target: VarTarget, name: Seq<char>) -> Emission {
    match t {
        Type::Buffer => Emission {
            uses_buffers: true,
            ..m.line("mov rdi, 1024  ; default buffer size"@).line("call _alloc_buffer"@).line(
                store_line(target, "buffer "@ + name),
            )
        },
        Type::List(_) => empty_list_code(m).line(store_line(target, "list "@ + name)),
        Type::Dict(_) => empty_map_code(m).line(store_line(target, "map "@ + name)),
        Type::Float => float_zero_code(m).line(store_line(target, "float "@ + name)),
        Type::Text => empty_value_code(m, VarType::Text).line(store_line(target, "text "@ + name)),
        Type::Value => {
            let m1 = m.line("mov rax, 0  ; nothing payload"@).line(store_line(target, "value "@ + name));
            if g.mixed_tag_slots@.contains_key(name) {
                if target is Local {
                    m1.line(
                        "mov byte [rbp-"@ + dec_int(g.mixed_tag_slots@[name] as int) + "], 6  ; value local tag = nothing"@,
                    )
                } else {
                    m1
                }
            } else if g.global_value_tag_labels@.contains_key(name) {
                m1.line("mov byte [rel "@ + g.global_value_tag_labels@[name]@ + "], 6  ; value global tag = nothing"@)
            } else {
                m1
            }
        },
        _ => m.line("xor rax, rax"@).line(store_line(target, name)),
    }
}

impl CodeGenerator {
    /// Store rax into a variable's storage.
    fn put_store(&mut self, target: &VarTarget, name: &str)
        ensures
            final(self).emission() == old(self).emission().line(store_line(*target, name@)),
            final(self).same_tables(old(self)),
    {
        reveal(CodeGenerator::tables);
        reveal(CodeGenerator::emission);
        self.emit_store_rax_to_target(target, name);
        assert(self.emission() =~= old(self).emission().line(store_line(*target, name@)));
    }

    /// Leave the empty value of a slot of type `t` in rax; false, with
    /// nothing emitted, for a type whose empty value is the number 0.
    pub fn emit_empty_value_for(&mut self, t: VarType) -> (r: bool)
        ensures
            r == (t == VarType::Text || t == VarType::List || t == VarType::Dict),
            final(self).emission() == empty_value_code(old(self).emission(), t),
            final(self).same_tables(old(self)),
    {
        reveal_with_fuel(gen, 1);
        reveal_with_fuel(lowerable, 1);
        match t {
            VarType::Text => {
                // The shared empty text, never a null pointer.
                let label = self.empty_text();
                self.put(cat3("lea rax, [rel ", label.as_str(), "]  ; empty text").as_str());
                true
            },
            VarType::List => {
                self.generate_expr(&Expr::ListLit { elements: Vec::new() });
                true
            },
            VarType::Dict => {
                self.generate_expr(&Expr::MapLit { pairs: Vec::new() });
                true
            },
            _ => false,
        }
    }

    /// Record that the global `name` was given its storage.
    fn note_initialized(&mut self, name: &str)
        ensures
            final(self).emission() == old(self).emission(),
            final(self).initialized_globals@ == old(self).initialized_globals@.insert(name@),
            final(self).tables_but_initialized() == old(self).tables_but_initialized(),
    {
        reveal(CodeGenerator::tables);
        reveal(CodeGenerator::tables_but_initialized);
        reveal(CodeGenerator::emission);
        self.initialized_globals.insert(String::from_str(name));
    }

    /// Write the default value of type `t` into `target`, the storage of
    /// `name`: a new buffer, list or map, the empty text, 0.0, `nothing`
    /// with its tag, or 0.
    pub fn emit_type_default(&mut self, t: &Type, target: &VarTarget, name: &str)
        ensures
            final(self).emission() == type_default_code(*old(self), old(self).emission(), *t, *target, name@),
            final(self).initialized_globals@ == (if *t is Buffer && *target is Global {
                old(self).initialized_globals@.insert(name@)
            } else {
                old(self).initialized_globals@
            }),
            final(self).tables_but_initialized() == old(self).tables_but_initialized(),
    {
        let ghost start = *self;
        match t {
            Type::Buffer => self.emit_buffer_default(target, name),
            Type::Value => self.emit_value_default(target, name),
            _ => {
                self.emit_plain_default(t, target, name);
                proof {
                    lemma_same_tables_keep(*self, start);
                }
            },
        }
    }

    /// A new buffer of 1024 bytes, stored into `target`.
    fn emit_buffer_default(&mut self, target: &VarTarget, name: &str)
        ensures
            final(self).emission() == type_default_code(*old(self), old(self).emission(), Type::Buffer, *target, name@),
            final(self).initialized_globals@ == (if *target is Global {
                old(self).initialized_globals@.insert(name@)
            } else {
                old(self).initialized_globals@
            }),
            final(self).tables_but_initialized() == old(self).tables_but_initialized(),
    {
        let ghost start = *self;
        self.put("mov rdi, 1024  ; default buffer size");
        self.put("call _alloc_buffer");
        self.put_store(target, cat2("buffer ", name).as_str());
        self.mark_buffers();
        proof {
            lemma_same_tables_keep(*self, start);
        }
        if target.global_label().is_some() {
            self.note_initialized(name);
        }
    }

    /// `nothing`, payload and tag, stored into `target`.
    fn emit_value_default(&mut self, target: &VarTarget, name: &str)
        ensures
            final(self).emission() == type_default_code(*old(self), old(self).emission(), Type::Value, *target, name@),
            final(self).initialized_globals@ == old(self).initialized_globals@,
            final(self).tables_but_initialized() == old(self).tables_but_initialized(),
    {
        let ghost start = *self;
        // An unset `value` holds `nothing`: payload 0, tag nothing.
        self.put("mov rax, 0  ; nothing payload");
        self.put_store(target, cat2("value ", name).as_str());
        proof {
            lemma_same_tables_keep(*self, start);
        }
        match self.mixed_tag_slots.get(name) {
            Some(slot) => {
                if target.local_offset().is_some() {
                    let n = crate::text::i64_text(*slot);
                    self.put(cat3("mov byte [rbp-", n.as_str(), "], 6  ; value local tag = nothing").as_str());
                }
            },
            None => match self.global_value_tag_labels.get(name) {
                Some(tag_label) => {
                    let line = cat3("mov byte [rel ", tag_label.as_str(), "], 6  ; value global tag = nothing");
                    self.put(line.as_str());
                },
                None => {},
            },
        }
        proof {
            lemma_same_tables_keep(*self, start);
        }
    }

    /// The default of a type other than a buffer or a `value`, stored into
    /// `target`.
    fn emit_plain_default(&mut self, t: &Type, target: &VarTarget, name: &str)
        requires
            !(*t is Buffer || *t is Value),
        ensures
            final(self).emission() == type_default_code(*old(self), old(self).emission(), *t, *target, name@),
            final(self).same_tables(old(self)),
    {
        match t {
            Type::List(_) => {
                // A null list would make the first append read address 0.
                self.emit_empty_value_for(VarType::List);
                self.put_store(target, cat2("list ", name).as_str());
            },
            Type::Dict(_) => {
                self.emit_empty_value_for(VarType::Dict);
                self.put_store(target, cat2("map ", name).as_str());
            },
            Type::Float => {
                self.emit_float_zero();
                self.put_store(target, cat2("float ", name).as_str());
            },
            Type::Text => {
                // A real, shared empty text rather than a null pointer.
                self.emit_empty_value_for(VarType::Text);
                self.put_store(target, cat2("text ", name).as_str());
            },
            _ => {
                self.put("xor rax, rax");
                self.put_store(target, name);
            },
        }
    }

    /// Leave the float 0.0 in rax.
    fn emit_float_zero(&mut self)
        ensures
            final(self).emission() == float_zero_code(old(self).emission()),
            final(self).same_tables(old(self)),
    {
        reveal_with_fuel(gen, 1);
        reveal_with_fuel(lowerable, 1);
        self.generate_expr(&Expr::FloatLit(FloatLiteral { bits: 0, text: String::from_str("0") }));
    }
}

/// Generators with the same tables agree on the tables but the record of
/// initialized globals, on that record, and on the shadow tags of values.
pub proof fn lemma_same_tables_keep(a: CodeGenerator, b: CodeGenerator)
    requires
        a.same_tables(&b),
    ensures
        a.tables_but_initialized() == b.tables_but_initialized(),
        a.initialized_globals == b.initialized_globals,
        a.mixed_tag_slots == b.mixed_tag_slots,
        a.global_value_tag_labels == b.global_value_tag_labels,
{
    reveal(CodeGenerator::tables);
    reveal(CodeGenerator::tables_but_initialized);
    assert(a.tables().initialized_globals == b.tables().initialized_globals);
    assert(a.tables().mixed_tag_slots == b.tables().mixed_tag_slots);
    assert(a.tables().global_value_tag_labels == b.tables().global_value_tag_labels);
}

impl Emission {
    /// Lines added as they are.
    pub open spec fn raw(self, ls: Seq<Seq<char>>) -> Emission {
        Emission { code: self.code + ls, ..self }
    }
}

/// A declared type's name in a `type` property, `Unknown` when it has none.
pub open spec fn shown_type_name(t: Type) -> Seq<char> {
    match super::expr::type_display_name(t) {
        Some(n) => n@,
        None => "Unknown"@,
    }
}

/// One arm of the runtime dispatch of a `type` property: at `case`, the
/// text `name (dynamic)`, then on to `done`.
pub open spec fn type_case(m: Emission, case: Seq<char>, name: Seq<char>, object: Seq<char>, done: Seq<char>) -> Emission {
    let text = name + " (dynamic)"@;
    m.with_string(text).label_here(case).line(
        "lea rax, [rel "@ + string_label(m.strings) + "]  ; "@ + object + "'s type: "@ + text,
    ).line("jmp "@ + done)
}

/// The code leaving a variable's type, as text, in rax: its declared type
/// when it has a static one, else the type its runtime tag names.
pub open spec fn type_property_code(g: CodeGenerator, m: Emission, object: String) -> Emission {
    let o = object@;
    if g.declared_types@.contains_key(o) && !(g.declared_types@[o] is Value) {
        let text = shown_type_name(g.declared_types@[o]) + " (static)"@;
        m.with_string(text).line("lea rax, [rel "@ + string_label(m.strings) + "]  ; "@ + o + "'s type: "@ + text)
    } else {
        let m0 = m.raw(load_tag_lines(g, Expr::Identifier(object)));
        let k0 = m0.next_label("type_case_0"@);
        let m1 = m0.take_label();
        let k1 = m1.next_label("type_case_1"@);
        let m2 = m1.take_label();
        let k2 = m2.next_label("type_case_2"@);
        let m3 = m2.take_label();
        let k3 = m3.next_label("type_case_3"@);
        let m4 = m3.take_label();
        let k4 = m4.next_label("type_case_4"@);
        let m5 = m4.take_label();
        let k5 = m5.next_label("type_case_5"@);
        let m6 = m5.take_label();
        let k6 = m6.next_label("type_case_6"@);
        let m7 = m6.take_label();
        let unknown = m7.next_label("type_unknown"@);
        let m8 = m7.take_label();
        let done = m8.next_label("type_done"@);
        let d = m8.take_label().line("cmp r11, 0  ; Number?"@).line("je "@ + k0).line("cmp r11, 1  ; Text?"@).line(
            "je "@ + k1,
        ).line("cmp r11, 2  ; Float?"@).line("je "@ + k2).line("cmp r11, 3  ; Boolean?"@).line("je "@ + k3).line(
            "cmp r11, 4  ; List?"@,
        ).line("je "@ + k4).line("cmp r11, 5  ; Map?"@).line("je "@ + k5).line("cmp r11, 6  ; Nothing?"@).line(
            "je "@ + k6,
        ).line("jmp "@ + unknown);
        let c = type_case(
            type_case(
                type_case(
                    type_case(
                        type_case(type_case(type_case(d, k0, "Number"@, o, done), k1, "Text"@, o, done), k2, "Float"@, o, done),
                        k3,
                        "Boolean"@,
                        o,
                        done,
                    ),
                    k4,
                    "List"@,
                    o,
                    done,
                ),
                k5,
                "Map"@,
                o,
                done,
            ),
            k6,
            "Nothing"@,
            o,
            done,
        );
        c.with_string("Unknown (dynamic)"@).label_here(unknown).line(
            "lea rax, [rel "@ + string_label(c.strings) + "]  ; "@ + o + "'s type: Unknown (dynamic)"@,
        ).label_here(done)
    }
}

/// The tag load of a name depends on its characters alone.
proof fn lemma_name_tag_lines(g: CodeGenerator, a: String, b: String)
    requires
        a@ == b@,
    ensures
        load_tag_lines(g, Expr::Identifier(a)) == load_tag_lines(g, Expr::Identifier(b)),
{
}

impl CodeGenerator {
    /// Load `expr`'s runtime tag into r11.
    fn put_value_tag(&mut self, expr: &Expr)
        ensures
            final(self).emission() == old(self).emission().raw(load_tag_lines(*old(self), *expr)),
            final(self).same_tables(old(self)),
    {
        reveal(CodeGenerator::tables);
        reveal(CodeGenerator::emission);
        self.emit_load_value_tag(expr);
        assert(self.emission() =~= old(self).emission().raw(load_tag_lines(*old(self), *expr)));
    }

    /// One arm of the runtime dispatch of a `type` property.
    fn emit_type_case(&mut self, case: &str, name: &str, object: &str, done: &str)
        ensures
            final(self).emission() == type_case(old(self).emission(), case@, name@, object@, done@),
            final(self).same_tables(old(self)),
    {
        let text = cat2(name, " (dynamic)");
        let label = self.text_const(text.as_str());
        self.put_label(case);
        let front = crate::text::cat5("lea rax, [rel ", label.as_str(), "]  ; ", object, "'s type: ");
        self.put(cat2(front.as_str(), text.as_str()).as_str());
        self.put(cat2("jmp ", done).as_str());
        proof {
            assert(front@ + text@ =~= "lea rax, [rel "@ + label@ + "]  ; "@ + object@ + "'s type: "@ + (name@
                + " (dynamic)"@));
        }
    }

    /// Leave `object`'s type, as text, in rax: `Number (static)` and the
    /// like for a declared type, and for a `value` the name its runtime tag
    /// gives, with `(dynamic)`.
    #[verifier::rlimit(100)]
    pub fn emit_type_property(&mut self, object: &str)
        ensures
            forall|s: String| s@ == object@ ==> final(self).emission() == #[trigger] type_property_code(
                *old(self),
                old(self).emission(),
                s,
            ),
            final(self).same_tables(old(self)),
    {
        let ghost start = *self;
        let ghost m = self.emission();
        match self.declared_types.get(object) {
            Some(declared) => {
                let is_value = match declared {
                    Type::Value => true,
                    _ => false,
                };
                if !is_value {
                    let name = match super::expr::type_property_display_name(declared) {
                        Some(n) => n,
                        None => "Unknown",
                    };
                    let text = cat2(name, " (static)");
                    let label = self.text_const(text.as_str());
                    let front = crate::text::cat5("lea rax, [rel ", label.as_str(), "]  ; ", object, "'s type: ");
                    self.put(cat2(front.as_str(), text.as_str()).as_str());
                    proof {
                        assert(front@ + text@ =~= "lea rax, [rel "@ + label@ + "]  ; "@ + object@ + "'s type: "@ + text@);
                        assert forall|s: String| s@ == object@ implies self.emission() == #[trigger] type_property_code(
                            start,
                            m,
                            s,
                        ) by {}
                    }
                    return;
                }
            },
            None => {},
        }
        // A `value`: dispatch on the runtime tag in r11.
        let ident = Expr::Identifier(String::from_str(object));
        self.put_value_tag(&ident);
        let k0 = self.fresh("type_case_0");
        let k1 = self.fresh("type_case_1");
        let k2 = self.fresh("type_case_2");
        let k3 = self.fresh("type_case_3");
        let k4 = self.fresh("type_case_4");
        let k5 = self.fresh("type_case_5");
        let k6 = self.fresh("type_case_6");
        let unknown = self.fresh("type_unknown");
        let done = self.fresh("type_done");
        self.put("cmp r11, 0  ; Number?");
        self.put(cat2("je ", k0.as_str()).as_str());
        self.put("cmp r11, 1  ; Text?");
        self.put(cat2("je ", k1.as_str()).as_str());
        self.put("cmp r11, 2  ; Float?");
        self.put(cat2("je ", k2.as_str()).as_str());
        self.put("cmp r11, 3  ; Boolean?");
        self.put(cat2("je ", k3.as_str()).as_str());
        self.put("cmp r11, 4  ; List?");
        self.put(cat2("je ", k4.as_str()).as_str());
        self.put("cmp r11, 5  ; Map?");
        self.put(cat2("je ", k5.as_str()).as_str());
        self.put("cmp r11, 6  ; Nothing?");
        self.put(cat2("je ", k6.as_str()).as_str());
        self.put(cat2("jmp ", unknown.as_str()).as_str());
        self.emit_type_case(k0.as_str(), "Number", object, done.as_str());
        self.emit_type_case(k1.as_str(), "Text", object, done.as_str());
        self.emit_type_case(k2.as_str(), "Float", object, done.as_str());
        self.emit_type_case(k3.as_str(), "Boolean", object, done.as_str());
        self.emit_type_case(k4.as_str(), "List", object, done.as_str());
        self.emit_type_case(k5.as_str(), "Map", object, done.as_str());
        self.emit_type_case(k6.as_str(), "Nothing", object, done.as_str());
        let unknown_str = self.text_const("Unknown (dynamic)");
        self.put_label(unknown.as_str());
        self.put(
            crate::text::cat5("lea rax, [rel ", unknown_str.as_str(), "]  ; ", object, "'s type: Unknown (dynamic)").as_str(),
        );
        self.put_label(done.as_str());
        proof {
            assert forall|s: String| s@ == object@ implies self.emission() == #[trigger] type_property_code(
                start,
                m,
                s,
            ) by {
                if let Expr::Identifier(n) = ident {
                    lemma_name_tag_lines(start, n, s);
                }
            }
        }
    }
}

/// The code putting a `treating` operand's tag in r11 once its value is in
/// rax: a static tag as a constant, a runtime one from its shadow slot, or
/// nothing when r11 already holds it.
pub open spec fn tag_into_r11(m: Emission, tag: ClauseTag, role: Seq<char>) -> Emission {
    match tag {
        ClauseTag::Static(t) => m.line("mov r11, "@ + dec_nat(t as nat) + "  ; "@ + role + " tag"@),
        ClauseTag::Runtime(src) => match source_operand(src) {
            Some(o) => m.line("movzx r11, byte "@ + o + "  ; "@ + role + " tag (shadow slot)"@),
            None => m,
        },
    }
}

/// The tag a present clause tag holds.
pub open spec fn some_tag(t: Option<ClauseTag>) -> ClauseTag {
    match t {
        Some(c) => c,
        None => ClauseTag::Static(0),
    }
}

/// The comparison of a tagged subject, saved on the stack, with a match
/// whose tag is known at emit time: a different tag never matches, a text
/// compares by bytes, anything else in registers; a mismatch jumps to
/// `skip`.
pub open spec fn static_match_code(t: CodeGenerator, m: Emission, match_value: Expr, tag: u8, skip: Seq<char>) -> Emission {
    let a = m.line("cmp r11, "@ + dec_nat(tag as nat) + "  ; subject tag == match tag?"@).line(
        "jne "@ + skip + "  ; different types can never be equal"@,
    );
    if tag == 1 {
        Emission {
            uses_strings: true,
            ..gen(t, a, match_value).line("mov rsi, rax  ; match text"@).line("mov rdi, [rsp+8]  ; subject text"@).line(
                "call _str_eq"@,
            ).line("test rax, rax"@).line("jz "@ + skip)
        }
    } else {
        gen(t, a, match_value).line("mov rbx, rax  ; match value"@).line("mov rax, [rsp+8]  ; subject value"@).line(
            "cmp rax, rbx"@,
        ).line("jne "@ + skip)
    }
}

/// The comparison of a tagged subject, saved on the stack, with a match
/// whose tag is only known at run time: the tags are compared, then the
/// values by bytes or in registers as the tag says; a mismatch jumps to
/// `skip`.
pub open spec fn runtime_match_code(t: CodeGenerator, m: Emission, match_value: Expr, tag: ClauseTag, skip: Seq<char>) -> Emission {
    let bytes = m.next_label("treating_tagged_bytes"@);
    let m1 = m.take_label();
    let fired = m1.next_label("treating_tagged_fired"@);
    let g = tag_into_r11(gen(t, m1.take_label(), match_value), tag, "match"@);
    Emission {
        uses_strings: true,
        ..g.line("mov rbx, [rsp]  ; subject tag"@).line("cmp r11, rbx  ; subject tag == match tag?"@).line(
            "jne "@ + skip + "  ; different types can never be equal"@,
        ).line("cmp r11, 1  ; text compares by bytes"@).line("je "@ + bytes).line(
            "mov rbx, [rsp+8]  ; subject value"@,
        ).line("cmp rax, rbx"@).line("jne "@ + skip).line("jmp "@ + fired).label_here(bytes).line(
            "mov rsi, rax  ; match text"@,
        ).line("mov rdi, [rsp+8]  ; subject text"@).line("call _str_eq"@).line("test rax, rax"@).line(
            "jz "@ + skip,
        ).label_here(fired)
    }
}

/// The code of `value treating match as replacement` when no tag decides:
/// a text (or buffer) subject compared by its bytes with a match that may
/// be text, anything else in registers; the replacement on a match, the
/// subject as it was otherwise.
pub open spec fn treating_plain_code(t: CodeGenerator, m: Emission, value: Expr, match_value: Expr, replacement: Expr) -> Emission {
    let skip = m.next_label("treating_skip"@);
    let m1 = m.take_label();
    let done = m1.next_label("treating_done"@);
    let m2 = m1.take_label();
    if by_bytes(t, value, match_value) {
        treating_bytes_code(t, m2, value, match_value, replacement, skip, done)
    } else {
        treating_registers_code(t, m2, value, match_value, replacement, skip, done)
    }
}

/// Whether a `treating` subject is a buffer variable.
pub open spec fn subject_is_buffer(t: CodeGenerator, value: Expr) -> bool {
    value matches Expr::Identifier(n) && t.tracked_type(n@) == Some(VarType::Buffer)
}

/// Whether a `treating` clause with no tag to decide compares by bytes: a
/// text or buffer subject, and a match that may be text.
pub open spec fn by_bytes(t: CodeGenerator, value: Expr, match_value: Expr) -> bool {
    let mt = type_at(t, match_value);
    let cannot_be_text = mt == Some(VarType::Integer) || mt == Some(VarType::Float) || mt == Some(VarType::Boolean);
    (subject_is_buffer(t, value) || type_at(t, value) == Some(VarType::Text)) && !cannot_be_text
}

/// `treating` compared by bytes, from after its two labels are taken.
pub open spec fn treating_bytes_code(
    t: CodeGenerator,
    m2: Emission,
    value: Expr,
    match_value: Expr,
    replacement: Expr,
    skip: Seq<char>,
    done: Seq<char>,
) -> Emission {
    let m3 = gen(t, Emission { uses_strings: true, ..m2 }, value).line(
        "push rax  ; save original value (struct ptr if buffer)"@,
    );
    let m4 = bytes_compare(t, m3, match_value, subject_is_buffer(t, value));
    gen(t, m4.line("test rax, rax"@).line("jz "@ + skip).line("add rsp, 8  ; discard saved value"@), replacement).line(
        "jmp "@ + done,
    ).label_here(skip).line("pop rax  ; restore original value"@).label_here(done)
}

/// The byte comparison of a saved subject, whose text (or buffer) is in
/// rax, with the match.
pub open spec fn bytes_compare(t: CodeGenerator, m3: Emission, match_value: Expr, is_buffer: bool) -> Emission {
    if is_buffer {
        gen(
            t,
            m3.line("mov rdi, rax"@).line("call _buffer_length"@).line("mov rdx, rax  ; len1"@).line(
                "mov rdi, [rsp]"@,
            ).line("call _buffer_data"@).line("mov rdi, rax  ; ptr1 = data"@),
            match_value,
        ).line("mov rsi, rax  ; ptr2 = match"@).line("push rdi"@).line("push rsi"@).line("push rdx"@).line(
            "mov rdi, rsi"@,
        ).line("call _str_len"@).line("mov rcx, rax  ; len2"@).line("pop rdx"@).line("pop rsi"@).line(
            "pop rdi"@,
        ).line("call _mem_eq"@)
    } else {
        gen(t, m3.line("mov rdi, rax  ; comparison ptr in rdi"@), match_value).line(
            "mov rsi, rax  ; match value in rsi"@,
        ).line("call _str_eq"@)
    }
}

/// `treating` compared in registers, from after its two labels are taken.
pub open spec fn treating_registers_code(
    t: CodeGenerator,
    m2: Emission,
    value: Expr,
    match_value: Expr,
    replacement: Expr,
    skip: Seq<char>,
    done: Seq<char>,
) -> Emission {
    let m3 = gen(t, gen(t, m2, value).line("push rax  ; save original value"@), match_value).line(
        "mov rbx, rax  ; match value"@,
    ).line("pop rax  ; restore original value"@).line("cmp rax, rbx"@).line("jne "@ + skip);
    gen(t, m3, replacement).line("jmp "@ + done).label_here(skip).label_here(done)
}

/// The code of `value treating match as replacement` when the tags decide:
/// the subject and its tag saved, the match compared by its tag and value,
/// and either the replacement with its own tag or the subject as it was,
/// tag and all.
pub open spec fn treating_tagged_code(t: CodeGenerator, m: Emission, value: Expr, match_value: Expr, replacement: Expr) -> Emission {
    let skip = m.next_label("treating_tagged_skip"@);
    let m1 = m.take_label();
    let done = m1.next_label("treating_tagged_done"@);
    let m2 = m1.take_label();
    let m3 = tag_into_r11(gen(t, m2, value), some_tag(t.subject_tag(value)), "subject"@).line(
        "push rax  ; subject value"@,
    ).line("push r11  ; subject tag"@);
    let m4 = match some_tag(t.clause_tag(match_value)) {
        ClauseTag::Static(tag) => static_match_code(t, m3, match_value, tag, skip),
        ClauseTag::Runtime(src) => runtime_match_code(t, m3, match_value, ClauseTag::Runtime(src), skip),
    };
    tag_into_r11(
        gen(t, m4.line("add rsp, 16  ; discard the saved subject"@), replacement),
        some_tag(t.clause_tag(replacement)),
        "replacement"@,
    ).line("jmp "@ + done).label_here(skip).line("pop r11  ; subject tag"@).line("pop rax  ; subject value"@).label_here(
        done,
    )
}

impl CodeGenerator {
    /// Note that the program compares texts.
    fn mark_strings(&mut self)
        ensures
            final(self).emission() == (Emission { uses_strings: true, ..old(self).emission() }),
            final(self).same_tables(old(self)),
    {
        reveal(CodeGenerator::tables);
        reveal(CodeGenerator::emission);
        self.uses_strings = true;
        assert(self.emission() =~= (Emission { uses_strings: true, ..old(self).emission() }));
    }

    /// Put a `treating` operand's tag in r11, right after its value was put
    /// in rax.
    pub fn emit_tag_into_r11(&mut self, tag: &ClauseTag, role: &str)
        ensures
            final(self).emission() == tag_into_r11(old(self).emission(), *tag, role@),
            final(self).same_tables(old(self)),
    {
        match tag {
            ClauseTag::Static(t) => {
                let n = crate::text::u64_text(*t as u64);
                self.put(crate::text::cat5("mov r11, ", n.as_str(), "  ; ", role, " tag").as_str());
            },
            ClauseTag::Runtime(src) => {
                if let Some(operand) = src.shadow_operand() {
                    self.put(crate::text::cat5("movzx r11, byte ", operand.as_str(), "  ; ", role, " tag (shadow slot)").as_str());
                }
            },
        }
    }

    fn emit_static_match(&mut self, match_value: &Expr, tag: u8, skip: &str, Ghost(t): Ghost<CodeGenerator>)
        requires
            old(self).same_tables(&t),
            lowerable(t, *match_value),
        ensures
            final(self).same_tables(&t),
            final(self).emission() == static_match_code(t, old(self).emission(), *match_value, tag, skip@),
        decreases match_value, 3int,
    {
        let n = crate::text::u64_text(tag as u64);
        self.put(cat3("cmp r11, ", n.as_str(), "  ; subject tag == match tag?").as_str());
        self.put(cat3("jne ", skip, "  ; different types can never be equal").as_str());
        if tag == 1 {
            // The same tag means the subject really is a text, so comparing
            // bytes is safe.
            self.lower_expr(match_value, Ghost(t));
            self.put("mov rsi, rax  ; match text");
            self.put("mov rdi, [rsp+8]  ; subject text");
            self.put("call _str_eq");
            self.put("test rax, rax");
            self.put(cat2("jz ", skip).as_str());
            self.mark_strings();
        } else {
            self.lower_expr(match_value, Ghost(t));
            self.put("mov rbx, rax  ; match value");
            self.put("mov rax, [rsp+8]  ; subject value");
            self.put("cmp rax, rbx");
            self.put(cat2("jne ", skip).as_str());
        }
    }

    fn emit_runtime_match(&mut self, match_value: &Expr, tag: &ClauseTag, skip: &str, Ghost(t): Ghost<CodeGenerator>)
        requires
            old(self).same_tables(&t),
            lowerable(t, *match_value),
        ensures
            final(self).same_tables(&t),
            final(self).emission() == runtime_match_code(t, old(self).emission(), *match_value, *tag, skip@),
        decreases match_value, 3int,
    {
        // The match's tag arrives with its value, so both questions are
        // asked at run time.
        let bytes_label = self.fresh("treating_tagged_bytes");
        let fired_label = self.fresh("treating_tagged_fired");
        self.lower_expr(match_value, Ghost(t));
        self.emit_tag_into_r11(tag, "match");
        self.put("mov rbx, [rsp]  ; subject tag");
        self.put("cmp r11, rbx  ; subject tag == match tag?");
        self.put(cat3("jne ", skip, "  ; different types can never be equal").as_str());
        self.put("cmp r11, 1  ; text compares by bytes");
        self.put(cat2("je ", bytes_label.as_str()).as_str());
        self.put("mov rbx, [rsp+8]  ; subject value");
        self.put("cmp rax, rbx");
        self.put(cat2("jne ", skip).as_str());
        self.put(cat2("jmp ", fired_label.as_str()).as_str());
        self.put_label(bytes_label.as_str());
        self.put("mov rsi, rax  ; match text");
        self.put("mov rdi, [rsp+8]  ; subject text");
        self.put("call _str_eq");
        self.put("test rax, rax");
        self.put(cat2("jz ", skip).as_str());
        self.mark_strings();
        self.put_label(fired_label.as_str());
    }

    /// `value treating match as replacement` where a tag known only at run
    /// time decides: a different tag never matches, equal tags compare the
    /// values, and the result leaves its tag in r11. Reports whether the
    /// three operands could be lowered; when one cannot, nothing is emitted.
    pub fn generate_treating_on_tagged_subject(&mut self, value: &Expr, match_value: &Expr, replacement: &Expr) -> (lowered: bool)
        requires
            old(self).subject_tag(*value) is Some,
            old(self).clause_tag(*match_value) is Some,
            old(self).clause_tag(*replacement) is Some,
        ensures
            lowered == (lowerable(*old(self), *value) && lowerable(*old(self), *match_value) && lowerable(
                *old(self),
                *replacement,
            )),
            lowered ==> final(self).emission() == treating_tagged_code(
                *old(self),
                old(self).emission(),
                *value,
                *match_value,
                *replacement,
            ),
            !lowered ==> *final(self) == *old(self),
            final(self).same_tables(old(self)),
    {
        if !(self.can_lower(value) && self.can_lower(match_value) && self.can_lower(replacement)) {
            return false;
        }
        let ghost t = *self;
        let ghost whole = Expr::TreatingAs {
            value: Box::new(*value),
            match_value: Box::new(*match_value),
            replacement: Box::new(*replacement),
        };
        self.lower_treating_tagged(value, match_value, replacement, Ghost(t), Ghost(whole));
        true
    }

    /// [`CodeGenerator::generate_treating_on_tagged_subject`], by the tables
    /// of `t`.
    fn lower_treating_tagged(
        &mut self,
        value: &Expr,
        match_value: &Expr,
        replacement: &Expr,
        Ghost(t): Ghost<CodeGenerator>,
        Ghost(whole): Ghost<Expr>,
    )
        requires
            old(self).same_tables(&t),
            whole matches Expr::TreatingAs { value: v, match_value: mv, replacement: r } && *v == *value && *mv
                == *match_value && *r == *replacement,
            t.subject_tag(*value) is Some,
            t.clause_tag(*match_value) is Some,
            t.clause_tag(*replacement) is Some,
            lowerable(t, *value),
            lowerable(t, *match_value),
            lowerable(t, *replacement),
        ensures
            final(self).emission() == treating_tagged_code(t, old(self).emission(), *value, *match_value, *replacement),
            final(self).same_tables(&t),
        decreases whole, 0int,
    {
        let skip_label = self.fresh("treating_tagged_skip");
        let done_label = self.fresh("treating_tagged_done");
        proof {
            lemma_same_tables_decide(*self, t, *value);
            lemma_same_tables_decide(*self, t, *match_value);
            lemma_same_tables_decide(*self, t, *replacement);
        }
        let subject_tag = match t_subject(self, value) {
            Some(tag) => tag,
            None => {
                return;
            },
        };
        let match_tag = match t_clause(self, match_value) {
            Some(tag) => tag,
            None => {
                return;
            },
        };
        let replacement_tag = match t_clause(self, replacement) {
            Some(tag) => tag,
            None => {
                return;
            },
        };
        self.lower_expr(value, Ghost(t));
        self.emit_tag_into_r11(&subject_tag, "subject");
        // Both halves go on the stack: r11 lasts only until the next call.
        self.put("push rax  ; subject value");
        self.put("push r11  ; subject tag");
        match &match_tag {
            ClauseTag::Static(tag) => self.emit_static_match(match_value, *tag, skip_label.as_str(), Ghost(t)),
            ClauseTag::Runtime(_) => self.emit_runtime_match(match_value, &match_tag, skip_label.as_str(), Ghost(t)),
        }
        // Fired: the replacement brings its own tag.
        self.put("add rsp, 16  ; discard the saved subject");
        self.lower_expr(replacement, Ghost(t));
        self.emit_tag_into_r11(&replacement_tag, "replacement");
        self.put(cat2("jmp ", done_label.as_str()).as_str());
        // Did not fire: the subject as it was, tag and all.
        self.put_label(skip_label.as_str());
        self.put("pop r11  ; subject tag");
        self.put("pop rax  ; subject value");
        self.put_label(done_label.as_str());
    }
}

/// The subject tag of a `treating` clause, read through a generator with
/// the same tables.
fn t_subject(g: &CodeGenerator, e: &Expr) -> (r: Option<ClauseTag>)
    ensures
        r == g.subject_tag(*e),
{
    g.treating_subject_tag(e)
}

/// A clause tag, read through a generator with the same tables.
fn t_clause(g: &CodeGenerator, e: &Expr) -> (r: Option<ClauseTag>)
    ensures
        r == g.clause_tag(*e),
{
    g.treating_clause_tag(e)
}

/// The code that, right after a call, carries a collection's pointer from
/// this frame's slot `offset` to the caller's storage when `name` is a
/// collection parameter, and to its global mirror when it is a top-level
/// name; rax and r11 are left alone.
pub open spec fn resync_code(g: CodeGenerator, m: Emission, name: Seq<char>, offset: i64) -> Emission {
    let backing = g.collection_backing_slots@.contains_key(name);
    let mirror = !g.in_function_codegen && g.global_var_labels@.contains_key(name);
    if !backing && !mirror {
        m
    } else {
        let m1 = m.line("push rbx"@).line("mov rbx, [rbp-"@ + dec_int(offset as int) + "]  ; "@ + name + " as the call left it"@);
        let m2 = if backing {
            m1.line("push rcx"@).line(
                "mov rcx, [rbp-"@ + dec_int(g.collection_backing_slots@[name] as int) + "]  ; where our caller keeps "@ + name,
            ).line("mov [rcx], rbx  ; the caller grows too"@).line("pop rcx"@)
        } else {
            m1
        };
        let m3 = if mirror {
            m2.line("mov [rel "@ + g.global_var_labels@[name]@ + "], rbx  ; global mirror of "@ + name)
        } else {
            m2
        };
        m3.line("pop rbx"@)
    }
}

/// The code leaving in rax the address of the cell holding a buffer
/// argument's pointer: at the top level a name's global mirror, a `buffer`
/// parameter's owner's cell, a variable's own slot or label, or else a
/// fresh slot the value is parked in.
pub open spec fn buffer_argument_code(g: CodeGenerator, m: Emission, arg: Expr) -> Emission {
    match arg {
        Expr::Identifier(n) if !g.in_function_codegen && g.variables@.contains_key(n@)
            && g.global_var_labels@.contains_key(n@) => m.line(
            "lea rax, [rel "@ + g.global_var_labels@[n@]@ + "]  ; the cell holding "@ + n@,
        ),
        Expr::Identifier(n) if g.variables@.contains_key(n@) => {
            let off = g.variables@[n@];
            if g.buffer_param_cells@.contains_key(off) {
                m.line(
                    "mov rax, [rbp-"@ + dec_int(g.buffer_param_cells@[off] as int) + "]  ; where "@ + n@
                        + "'s owner keeps it"@,
                )
            } else {
                m.line("lea rax, [rbp-"@ + dec_int(off as int) + "]  ; the cell holding "@ + n@)
            }
        },
        Expr::Identifier(n) if g.global_var_labels@.contains_key(n@) => m.line(
            "lea rax, [rel "@ + g.global_var_labels@[n@]@ + "]  ; the cell holding "@ + n@,
        ),
        _ => {
            let slot = g.stack_offset + 8;
            gen(g, m, arg).line(
                "mov [rbp-"@ + dec_int(slot) + "], rax  ; a cell for a buffer argument with no name"@,
            ).line("lea rax, [rbp-"@ + dec_int(slot) + "]"@)
        },
    }
}

/// What a buffer argument's other holder needs after the call.
pub open spec fn buffer_argument_fixup(g: CodeGenerator, arg: Expr) -> Option<BufferArgFixup> {
    match arg {
        Expr::Identifier(n) if !g.in_function_codegen && g.variables@.contains_key(n@)
            && g.global_var_labels@.contains_key(n@) => Some(
            BufferArgFixup::MirrorToSlot { label: g.global_var_labels@[n@], offset: g.variables@[n@] },
        ),
        Expr::Identifier(n) if g.variables@.contains_key(n@) && g.buffer_param_cells@.contains_key(
            g.variables@[n@],
        ) => Some(
            BufferArgFixup::OuterCellToSlot {
                cell: g.buffer_param_cells@[g.variables@[n@]],
                offset: g.variables@[n@],
            },
        ),
        _ => None,
    }
}

/// The code leaving in rax the address of the storage of a collection
/// argument: a variable's own slot or label, or else a fresh slot the
/// value is parked in.
pub open spec fn collection_argument_code(g: CodeGenerator, m: Emission, arg: Expr) -> Emission {
    match arg {
        Expr::Identifier(n) if g.variables@.contains_key(n@) => m.line(
            "lea rax, [rbp-"@ + dec_int(g.variables@[n@] as int) + "]  ; the caller's "@ + n@,
        ),
        Expr::Identifier(n) if g.global_var_labels@.contains_key(n@) => m.line(
            "lea rax, [rel "@ + g.global_var_labels@[n@]@ + "]  ; the caller's "@ + n@,
        ),
        _ => {
            let slot = g.stack_offset + 8;
            gen(g, m, arg).line("mov [rbp-"@ + dec_int(slot) + "], rax  ; collection argument"@).line(
                "lea rax, [rbp-"@ + dec_int(slot) + "]"@,
            )
        },
    }
}

/// Whether an argument names a variable of its own.
pub open spec fn names_variable(g: CodeGenerator, arg: Expr) -> bool {
    match arg {
        Expr::Identifier(n) => g.variables@.contains_key(n@) || g.global_var_labels@.contains_key(n@),
        _ => false,
    }
}

impl CodeGenerator {
    /// Right after a call: carry a collection's pointer, which the callee
    /// may have moved, from this frame's slot to every other holder.
    pub fn emit_resync_collection_after_call(&mut self, name: &str, offset: i64)
        ensures
            final(self).emission() == resync_code(*old(self), old(self).emission(), name@, offset),
            final(self).same_tables(old(self)),
    {
        let ghost start = *self;
        let backing = match self.collection_backing_slots.get(name) {
            Some(b) => Some(*b),
            None => None,
        };
        let mirror = if self.in_function_codegen {
            None
        } else {
            match self.global_var_label(name) {
                Some(l) => Some(l.clone()),
                None => None,
            }
        };
        if backing.is_none() && mirror.is_none() {
            return;
        }
        self.put("push rbx");
        let o = crate::text::i64_text(offset);
        self.put(crate::text::cat5("mov rbx, [rbp-", o.as_str(), "]  ; ", name, " as the call left it").as_str());
        proof {
            lemma_same_tables_fields(*self, start);
        }
        if let Some(back_slot) = backing {
            self.put("push rcx");
            let b = crate::text::i64_text(back_slot);
            self.put(cat4("mov rcx, [rbp-", b.as_str(), "]  ; where our caller keeps ", name).as_str());
            self.put("mov [rcx], rbx  ; the caller grows too");
            self.put("pop rcx");
        }
        if let Some(label) = mirror {
            self.put(cat4("mov [rel ", label.as_str(), "], rbx  ; global mirror of ", name).as_str());
        }
        self.put("pop rbx");
    }

    /// Leave in rax the address of the storage holding a collection
    /// argument's pointer, so a callee that grows the collection reaches
    /// the caller's variable. Returns the name and slot of a variable whose
    /// other holders must follow after the call.
    pub fn emit_collection_argument_address(&mut self, arg: &Expr) -> (r: Option<(String, i64)>)
        requires
            names_variable(*old(self), *arg) || lowerable(*old(self), *arg),
            old(self).stack_offset <= i64::MAX - 8,
        ensures
            final(self).emission() == collection_argument_code(*old(self), old(self).emission(), *arg),
            final(self).tables_but_stack() == old(self).tables_but_stack(),
            final(self).stack_offset == (if names_variable(*old(self), *arg) {
                old(self).stack_offset as int
            } else {
                old(self).stack_offset + 8
            }),
            match *arg {
                Expr::Identifier(n) if old(self).variables@.contains_key(n@) => r matches Some((s, o)) && s@ == n@ && o
                    == old(self).variables@[n@],
                _ => r is None,
            },
    {
        let ghost start = *self;
        if let Expr::Identifier(name) = arg {
            if let Some(offset) = self.get_var(name.as_str()) {
                let o = crate::text::i64_text(offset);
                self.put(cat4("lea rax, [rbp-", o.as_str(), "]  ; the caller's ", name.as_str()).as_str());
                proof {
                    lemma_same_tables_but_stack(*self, start);
                }
                return Some((name.clone(), offset));
            }
            if let Some(label) = self.global_var_label(name.as_str()) {
                let line = cat4("lea rax, [rel ", label.as_str(), "]  ; the caller's ", name.as_str());
                self.put(line.as_str());
                proof {
                    lemma_same_tables_but_stack(*self, start);
                }
                return None;
            }
        }
        // No variable behind this argument: park its value in a slot of our
        // own, so the callee's store-back writes a temporary.
        self.lower_expr(arg, Ghost(start));
        let ghost mid = *self;
        proof {
            lemma_same_tables_but_stack(mid, start);
        }
        let slot = self.stack_offset + 8;
        self.grow_stack();
        let ghost grown = *self;
        let s1 = crate::text::i64_text(slot);
        self.put(cat3("mov [rbp-", s1.as_str(), "], rax  ; collection argument").as_str());
        self.put(cat3("lea rax, [rbp-", s1.as_str(), "]").as_str());
        proof {
            lemma_same_tables_but_stack(*self, grown);
        }
        None
    }

    /// Leave in rax the address of the cell where the caller keeps a buffer
    /// argument's pointer, so a callee that grows the buffer can tell the
    /// caller where it went. Returns what must follow the call for the
    /// buffer's other holder, if it has one.
    pub fn emit_buffer_arg_cell_address(&mut self, arg: &Expr) -> (r: Option<BufferArgFixup>)
        requires
            names_variable(*old(self), *arg) || lowerable(*old(self), *arg),
            old(self).stack_offset <= i64::MAX - 8,
        ensures
            final(self).emission() == buffer_argument_code(*old(self), old(self).emission(), *arg),
            final(self).tables_but_stack() == old(self).tables_but_stack(),
            final(self).stack_offset == (if names_variable(*old(self), *arg) {
                old(self).stack_offset as int
            } else {
                old(self).stack_offset + 8
            }),
            r == buffer_argument_fixup(*old(self), *arg),
    {
        let ghost start = *self;
        if let Expr::Identifier(name) = arg {
            if !self.in_function_codegen {
                if let Some(offset) = self.get_var(name.as_str()) {
                    let found: Option<String> = match self.global_var_label(name.as_str()) {
                        Some(l) => Some(l.clone()),
                        None => None,
                    };
                    if let Some(label) = found {
                        self.put(cat4("lea rax, [rel ", label.as_str(), "]  ; the cell holding ", name.as_str()).as_str());
                        proof {
                            lemma_same_tables_but_stack(*self, start);
                        }
                        return Some(BufferArgFixup::MirrorToSlot { label, offset });
                    }
                }
            }
            if let Some(offset) = self.get_var(name.as_str()) {
                if let Some(cell) = self.buffer_param_cell(offset) {
                    let c = crate::text::i64_text(cell);
                    self.put(
                        crate::text::cat5("mov rax, [rbp-", c.as_str(), "]  ; where ", name.as_str(), "'s owner keeps it").as_str(),
                    );
                    proof {
                        lemma_same_tables_but_stack(*self, start);
                    }
                    return Some(BufferArgFixup::OuterCellToSlot { cell, offset });
                }
                let o = crate::text::i64_text(offset);
                self.put(cat4("lea rax, [rbp-", o.as_str(), "]  ; the cell holding ", name.as_str()).as_str());
                proof {
                    lemma_same_tables_but_stack(*self, start);
                }
                return None;
            }
            if let Some(label) = self.global_var_label(name.as_str()) {
                let line = cat4("lea rax, [rel ", label.as_str(), "]  ; the cell holding ", name.as_str());
                self.put(line.as_str());
                proof {
                    lemma_same_tables_but_stack(*self, start);
                }
                return None;
            }
        }
        // No variable behind this argument: it gets a cell of its own, and
        // its growth dies with the temporary.
        self.lower_expr(arg, Ghost(start));
        let ghost mid = *self;
        proof {
            lemma_same_tables_but_stack(mid, start);
        }
        let slot = self.stack_offset + 8;
        self.grow_stack();
        let ghost grown = *self;
        let s1 = crate::text::i64_text(slot);
        self.put(cat3("mov [rbp-", s1.as_str(), "], rax  ; a cell for a buffer argument with no name").as_str());
        self.put(cat3("lea rax, [rbp-", s1.as_str(), "]").as_str());
        proof {
            lemma_same_tables_but_stack(*self, grown);
        }
        None
    }

    /// Take eight more bytes of stack.
    fn grow_stack(&mut self)
        requires
            old(self).stack_offset <= i64::MAX - 8,
        ensures
            final(self).emission() == old(self).emission(),
            final(self).stack_offset == old(self).stack_offset + 8,
            final(self).tables_but_stack() == old(self).tables_but_stack(),
    {
        reveal(CodeGenerator::tables);
        reveal(CodeGenerator::tables_but_stack);
        reveal(CodeGenerator::emission);
        self.stack_offset = self.stack_offset + 8;
    }
}

/// Generators with the same tables agree on them with the stack depth set
/// aside.
pub proof fn lemma_same_tables_but_stack(a: CodeGenerator, b: CodeGenerator)
    requires
        a.same_tables(&b),
    ensures
        a.tables_but_stack() == b.tables_but_stack(),
        a.stack_offset == b.stack_offset,
{
    reveal(CodeGenerator::tables);
    reveal(CodeGenerator::tables_but_stack);
    assert(a.tables().stack_offset == b.tables().stack_offset);
}


/// One emission extends another: its code and data begin with the other's,
/// and every runtime part the other uses it uses too.
pub open spec fn extends(later: Emission, earlier: Emission) -> bool {
    &&& earlier.code.is_prefix_of(later.code)
    &&& earlier.data.is_prefix_of(later.data)
    &&& (earlier.uses_floats ==> later.uses_floats)
    &&& (earlier.uses_ints ==> later.uses_ints)
    &&& (earlier.uses_strings ==> later.uses_strings)
    &&& (earlier.uses_time ==> later.uses_time)
    &&& (earlier.uses_files ==> later.uses_files)
    &&& (earlier.uses_proc ==> later.uses_proc)
    &&& (earlier.uses_lists ==> later.uses_lists)
    &&& (earlier.uses_maps ==> later.uses_maps)
    &&& (earlier.uses_heap ==> later.uses_heap)
    &&& (earlier.uses_buffers ==> later.uses_buffers)
    &&& (earlier.empty_text is Some ==> later.empty_text == earlier.empty_text)
}

/// Extending is transitive.
proof fn lemma_extends_trans(a: Emission, b: Emission, c: Emission)
    requires
        extends(b, a),
        extends(c, b),
    ensures
        extends(c, a),
{
    assert(a.code.is_prefix_of(c.code)) by {
        assert(c.code.take(a.code.len() as int) =~= b.code.take(b.code.len() as int).take(a.code.len() as int));
    }
    assert(a.data.is_prefix_of(c.data)) by {
        assert(c.data.take(a.data.len() as int) =~= b.data.take(b.data.len() as int).take(a.data.len() as int));
    }
}

/// An emission whose code and data begin with another's, and which keeps
/// its flags and empty text, extends it.
proof fn lemma_extends_by_prefix(later: Emission, earlier: Emission)
    requires
        later.code.len() >= earlier.code.len(),
        later.code.take(earlier.code.len() as int) =~= earlier.code,
        later.data.len() >= earlier.data.len(),
        later.data.take(earlier.data.len() as int) =~= earlier.data,
        earlier.uses_floats ==> later.uses_floats,
        earlier.uses_ints ==> later.uses_ints,
        earlier.uses_strings ==> later.uses_strings,
        earlier.uses_time ==> later.uses_time,
        earlier.uses_files ==> later.uses_files,
        earlier.uses_proc ==> later.uses_proc,
        earlier.uses_lists ==> later.uses_lists,
        earlier.uses_maps ==> later.uses_maps,
        earlier.uses_heap ==> later.uses_heap,
        earlier.uses_buffers ==> later.uses_buffers,
        earlier.empty_text is Some ==> later.empty_text == earlier.empty_text,
    ensures
        extends(later, earlier),
{
}

/// The code after a possibly missing text read extends what came before.
#[verifier::rlimit(100)]
#[verifier::spinoff_prover]
proof fn lemma_text_or_empty_extends(m: Emission, prefix: Seq<char>)
    ensures
        extends(text_or_empty(m, prefix), m),
{
    lemma_extends_by_prefix(text_or_empty(m, prefix), m);
}

/// An environment lookup extends what came before.
#[verifier::rlimit(100)]
#[verifier::spinoff_prover]
proof fn lemma_env_lookup_extends(m: Emission)
    ensures
        extends(env_lookup(m), m),
{
    lemma_extends_by_prefix(env_lookup(m), m);
}

/// The `nothing` checks and the operator tails extend what came before.
#[verifier::rlimit(100)]
#[verifier::spinoff_prover]
proof fn lemma_operand_steps_extend(t: CodeGenerator, m: Emission, e: Expr, b: bool, op: BinaryOperator)
    ensures
        extends(nothing_check(t, m, e), m),
        extends(checked(t, b, m, e), m),
        extends(nothing_tag_test(t, m, e, b), m),
        extends(float_right_done(m, b), m),
        extends(float_left_done(m, b, op), m),
        extends(int_head(m, b), m),
        extends(int_tail(m, op), m),
{
    lemma_extends_by_prefix(nothing_check(t, m, e), m);
    lemma_extends_by_prefix(checked(t, b, m, e), m);
    lemma_extends_by_prefix(nothing_tag_test(t, m, e, b), m);
    lemma_extends_by_prefix(float_right_done(m, b), m);
    lemma_extends_by_prefix(int_head(m, b), m);
    let f = float_left_done(m, b, op);
    assert(f.code.take(m.code.len() as int) =~= m.code);
    lemma_extends_by_prefix(f, m);
    let it = int_tail(m, op);
    assert(it.code.take(m.code.len() as int) =~= m.code);
    lemma_extends_by_prefix(it, m);
}

/// A property test, a folded `nothing` comparison and a literal extend
/// what came before.
#[verifier::rlimit(100)]
#[verifier::spinoff_prover]
proof fn lemma_leaf_steps_extend(t: CodeGenerator, m: Emission, e: Expr, p: Property, tag: u8, b: bool)
    ensures
        extends(property_code(t, m, e, p), m),
        extends(nothing_folded(m, tag, b), m),
        extends(literal_code(t, m, e), m),
        extends(read_code(m, e), m),
{
    lemma_extends_by_prefix(property_code(t, m, e, p), m);
    lemma_extends_by_prefix(nothing_folded(m, tag, b), m);
    lemma_literal_extends(t, m, e);
    lemma_read_extends(m, e);
}

/// A literal extends what came before.
#[verifier::rlimit(100)]
#[verifier::spinoff_prover]
proof fn lemma_literal_extends(t: CodeGenerator, m: Emission, e: Expr)
    ensures
        extends(literal_code(t, m, e), m),
{
    match e {
        Expr::ListLit { .. } => {
            lemma_extends_by_prefix(empty_list_code(m), m);
        },
        Expr::MapLit { .. } => {
            lemma_extends_by_prefix(empty_map_code(m), m);
        },
        _ => {
            lemma_extends_by_prefix(literal_code(t, m, e), m);
        },
    }
}

/// A runtime read extends what came before.
#[verifier::rlimit(100)]
#[verifier::spinoff_prover]
proof fn lemma_read_extends(m: Emission, e: Expr)
    ensures
        extends(read_code(m, e), m),
{
    let f1 = m.line("xor rdi, rdi  ; index 0"@).line("call _get_env_at"@);
    let l1 = m.line("call _get_env_count"@).line("dec rax  ; last index = count - 1"@).line("mov rdi, rax"@).line(
        "call _get_env_at"@,
    );
    if e is EnvironmentVariableFirst {
        lemma_extends_by_prefix(f1, m);
        lemma_text_or_empty_extends(f1, "env_first"@);
        lemma_extends_trans(m, f1, text_or_empty(f1, "env_first"@));
    } else if e is EnvironmentVariableLast {
        lemma_extends_by_prefix(l1, m);
        lemma_text_or_empty_extends(l1, "env_last"@);
        lemma_extends_trans(m, l1, text_or_empty(l1, "env_last"@));
    } else {
        lemma_extends_by_prefix(read_code(m, e), m);
    }
}

/// Lowering only appends: the code and data emitted before are left as
/// they were, a runtime part once noted stays noted, and the shared empty
/// text keeps its label.
pub proof fn law_lowering_only_appends(t: CodeGenerator, m: Emission, e: Expr)
    ensures
        extends(gen(t, m, e), m),
    decreases e, 2int,
{
    match e {
        Expr::EnvironmentVariable { .. } | Expr::EnvironmentVariableAt { .. }
        | Expr::EnvironmentVariableExists { .. } => lemma_env_appends(t, m, e),
        Expr::ReapChild { .. } => lemma_reap_appends(t, m, e),
        Expr::UnaryOp { .. } | Expr::PropertyCheck { .. } => lemma_operator_appends(t, m, e),
        Expr::TypeCheck { .. } => lemma_type_check_appends(t, m, e),
        Expr::Cast { .. } => lemma_cast_appends(t, m, e),
        Expr::TreatingAs { .. } => lemma_treating_appends(t, m, e),
        Expr::BinaryOp { .. } => lemma_binary_only_appends(t, m, e),
        _ => lemma_leaf_appends(t, m, e),
    }
}

/// A literal or a runtime read only appends.
#[verifier::rlimit(60)]
#[verifier::spinoff_prover]
proof fn lemma_leaf_appends(t: CodeGenerator, m: Emission, e: Expr)
    requires
        !(e is EnvironmentVariable || e is EnvironmentVariableAt || e is EnvironmentVariableExists
            || e is ReapChild || e is UnaryOp || e is PropertyCheck || e is BinaryOp || e is TypeCheck || e is Cast
            || e is TreatingAs),
    ensures
        extends(gen(t, m, e), m),
{
    reveal_with_fuel(gen, 1);
    lemma_leaf_steps_extend(t, m, e, Property::Even, 0, true);
    lemma_extends_by_prefix(m, m);
}

/// An environment read only appends.
#[verifier::rlimit(60)]
#[verifier::spinoff_prover]
proof fn lemma_env_appends(t: CodeGenerator, m: Emission, e: Expr)
    requires
        e is EnvironmentVariable || e is EnvironmentVariableAt || e is EnvironmentVariableExists,
    ensures
        extends(gen(t, m, e), m),
    decreases e, 1int,
{
    reveal_with_fuel(gen, 1);
    match e {
        Expr::EnvironmentVariable { name } => {
            law_lowering_only_appends(t, m, *name);
            lemma_env_lookup_extends(gen(t, m, *name));
            lemma_extends_trans(m, gen(t, m, *name), env_lookup(gen(t, m, *name)));
        },
        Expr::EnvironmentVariableAt { index } => {
            law_lowering_only_appends(t, m, *index);
            let a = gen(t, m, *index).line("mov rdi, rax"@).line("call _get_env_at"@);
            lemma_extends_by_prefix(a, gen(t, m, *index));
            lemma_extends_trans(m, gen(t, m, *index), a);
            lemma_text_or_empty_extends(a, "env_at"@);
            lemma_extends_trans(m, a, text_or_empty(a, "env_at"@));
        },
        Expr::EnvironmentVariableExists { name } => {
            law_lowering_only_appends(t, m, *name);
            let g = gen(t, m, *name);
            let a = g.line("mov rdi, rax"@).line("call _get_env"@).line("test rax, rax"@).line("setnz al"@).line(
                "movzx rax, al  ; 1 if exists, 0 otherwise"@,
            );
            lemma_extends_by_prefix(a, g);
            lemma_extends_trans(m, g, a);
        },
        _ => {},
    }
}

/// Reaping a child only appends.
#[verifier::rlimit(60)]
#[verifier::spinoff_prover]
proof fn lemma_reap_appends(t: CodeGenerator, m: Emission, e: Expr)
    requires
        e is ReapChild,
    ensures
        extends(gen(t, m, e), m),
    decreases e, 1int,
{
    reveal_with_fuel(gen, 1);
    match e {
        Expr::ReapChild { pid, no_hang } => {
            let m1 = Emission { uses_files: true, uses_proc: true, ..m };
            lemma_extends_by_prefix(m1, m);
            let m2 = match pid {
                None => m1.line("mov rdi, -1  ; wait for any child"@),
                Some(p) => gen(t, m1, *p).line("mov rdi, rax  ; wait for this specific pid"@),
            };
            match pid {
                Some(p) => {
                    law_lowering_only_appends(t, m1, *p);
                    lemma_extends_trans(m, m1, gen(t, m1, *p));
                    lemma_extends_by_prefix(m2, gen(t, m1, *p));
                    lemma_extends_trans(m, gen(t, m1, *p), m2);
                },
                None => {
                    lemma_extends_by_prefix(m2, m1);
                    lemma_extends_trans(m, m1, m2);
                },
            }
            let r = gen(t, m, e);
            lemma_extends_by_prefix(r, m2);
            lemma_extends_trans(m, m2, r);
        },
        _ => {},
    }
}

/// An operator on one operand only appends.
#[verifier::rlimit(60)]
#[verifier::spinoff_prover]
proof fn lemma_operator_appends(t: CodeGenerator, m: Emission, e: Expr)
    requires
        e is UnaryOp || e is PropertyCheck,
    ensures
        extends(gen(t, m, e), m),
    decreases e, 1int,
{
    reveal_with_fuel(gen, 1);
    match e {
        Expr::UnaryOp { op, operand } => {
            let mf = Emission { uses_floats: true, ..m };
            let mi = Emission { uses_ints: true, ..m };
            lemma_extends_by_prefix(mf, m);
            lemma_extends_by_prefix(mi, m);
            law_lowering_only_appends(t, mf, *operand);
            law_lowering_only_appends(t, mi, *operand);
            lemma_extends_trans(m, mf, gen(t, mf, *operand));
            lemma_extends_trans(m, mi, gen(t, mi, *operand));
            let r = gen(t, m, e);
            if op == UnaryOperator::Negate && type_at(t, *operand) == Some(VarType::Float) {
                lemma_extends_by_prefix(r, gen(t, mf, *operand));
                lemma_extends_trans(m, gen(t, mf, *operand), r);
            } else {
                lemma_extends_by_prefix(r, gen(t, mi, *operand));
                lemma_extends_trans(m, gen(t, mi, *operand), r);
            }
        },
        Expr::PropertyCheck { value, property } => {
            law_lowering_only_appends(t, m, *value);
            lemma_leaf_steps_extend(t, gen(t, m, *value), *value, property, 0, true);
            lemma_extends_trans(m, gen(t, m, *value), property_code(t, gen(t, m, *value), *value, property));
        },
        _ => {},
    }
}

/// A cast's lowering only appends.
#[verifier::rlimit(60)]
#[verifier::spinoff_prover]
proof fn lemma_cast_appends(t: CodeGenerator, m: Emission, e: Expr)
    requires
        e is Cast,
    ensures
        extends(gen(t, m, e), m),
    decreases e, 1int,
{
    reveal_with_fuel(gen, 1);
    match e {
        Expr::Cast { value, target_type, radix } => {
            let g = gen(t, m, *value);
            law_lowering_only_appends(t, m, *value);
            lemma_cast_code_extends(t, g, *value, target_type, radix);
            lemma_extends_trans(m, g, cast_code(t, g, *value, target_type, radix));
        },
        _ => {},
    }
}

/// A cast's conversion extends what came before.
#[verifier::rlimit(100)]
#[verifier::spinoff_prover]
proof fn lemma_cast_code_extends(t: CodeGenerator, m: Emission, value: Expr, target: Type, radix: u32)
    ensures
        extends(cast_code(t, m, value, target, radix), m),
{
    let r = cast_code(t, m, value, target, radix);
    let mi = Emission { uses_ints: true, uses_buffers: true, ..m };
    let mf = Emission { uses_floats: true, uses_buffers: true, ..m };
    assert(buffer_parse_head(mi).code.take(m.code.len() as int) =~= m.code);
    assert(buffer_parse_head(mf).code.take(m.code.len() as int) =~= m.code);
    assert(r.code.take(m.code.len() as int) =~= m.code);
    lemma_extends_by_prefix(r, m);
}

/// A `treating` clause's lowering only appends.
#[verifier::rlimit(60)]
#[verifier::spinoff_prover]
proof fn lemma_treating_appends(t: CodeGenerator, m: Emission, e: Expr)
    requires
        e is TreatingAs,
    ensures
        extends(gen(t, m, e), m),
    decreases e, 1int,
{
    lemma_gen_treating(t, m, e);
    match e {
        Expr::TreatingAs { value, match_value, replacement } => {
            if dispatch_of(t.subject_tag(*value), t.clause_tag(*match_value), t.clause_tag(*replacement)) {
                lemma_treating_tagged_appends(t, m, e);
            } else {
                let skip = m.next_label("treating_skip"@);
                let m1 = m.take_label();
                let done = m1.next_label("treating_done"@);
                let m2 = m1.take_label();
                lemma_extends_by_prefix(m2, m);
                if by_bytes(t, *value, *match_value) {
                    lemma_treating_bytes_appends(t, m2, e, skip, done);
                    lemma_extends_trans(m, m2, treating_bytes_code(t, m2, *value, *match_value, *replacement, skip, done));
                } else {
                    lemma_treating_registers_appends(t, m2, e, skip, done);
                    lemma_extends_trans(
                        m,
                        m2,
                        treating_registers_code(t, m2, *value, *match_value, *replacement, skip, done),
                    );
                }
            }
        },
        _ => {},
    }
}

/// A `treating` clause dispatched on tags only appends.
#[verifier::rlimit(60)]
#[verifier::spinoff_prover]
proof fn lemma_treating_tagged_appends(t: CodeGenerator, m: Emission, e: Expr)
    requires
        e is TreatingAs,
    ensures
        match e {
            Expr::TreatingAs { value, match_value, replacement } => extends(
                treating_tagged_code(t, m, *value, *match_value, *replacement),
                m,
            ),
            _ => true,
        },
    decreases e, 0int,
{
    match e {
        Expr::TreatingAs { value, match_value, replacement } => {
            let skip = m.next_label("treating_tagged_skip"@);
            let m1 = m.take_label();
            let done = m1.next_label("treating_tagged_done"@);
            let m2 = m1.take_label();
            lemma_extends_by_prefix(m2, m);
            law_lowering_only_appends(t, m2, *value);
            let gv = gen(t, m2, *value);
            lemma_extends_trans(m, m2, gv);
            let ti = tag_into_r11(gv, some_tag(t.subject_tag(*value)), "subject"@);
            let m3 = ti.line("push rax  ; subject value"@).line("push r11  ; subject tag"@);
            lemma_extends_by_prefix(ti, gv);
            lemma_extends_by_prefix(m3, ti);
            lemma_extends_trans(gv, ti, m3);
            lemma_extends_trans(m, gv, m3);
            let m4 = match some_tag(t.clause_tag(*match_value)) {
                ClauseTag::Static(tag) => static_match_code(t, m3, *match_value, tag, skip),
                ClauseTag::Runtime(src) => runtime_match_code(t, m3, *match_value, ClauseTag::Runtime(src), skip),
            };
            match some_tag(t.clause_tag(*match_value)) {
                ClauseTag::Static(tag) => lemma_static_match_appends(t, m3, *match_value, tag, skip),
                ClauseTag::Runtime(src) => lemma_runtime_match_appends(
                    t,
                    m3,
                    *match_value,
                    ClauseTag::Runtime(src),
                    skip,
                ),
            }
            lemma_extends_trans(m, m3, m4);
            let a = m4.line("add rsp, 16  ; discard the saved subject"@);
            lemma_extends_by_prefix(a, m4);
            lemma_extends_trans(m, m4, a);
            law_lowering_only_appends(t, a, *replacement);
            let gr = gen(t, a, *replacement);
            lemma_extends_trans(m, a, gr);
            let tr = tag_into_r11(gr, some_tag(t.clause_tag(*replacement)), "replacement"@);
            lemma_extends_by_prefix(tr, gr);
            let f = tr.line("jmp "@ + done).label_here(skip).line("pop r11  ; subject tag"@).line(
                "pop rax  ; subject value"@,
            ).label_here(done);
            lemma_extends_by_prefix(f, tr);
            lemma_extends_trans(gr, tr, f);
            lemma_extends_trans(m, gr, f);
        },
        _ => {},
    }
}

/// A tagged subject's comparison with a match of static tag only appends.
#[verifier::rlimit(60)]
#[verifier::spinoff_prover]
proof fn lemma_static_match_appends(t: CodeGenerator, m: Emission, match_value: Expr, tag: u8, skip: Seq<char>)
    ensures
        extends(static_match_code(t, m, match_value, tag, skip), m),
    decreases match_value, 3int,
{
    let a = m.line("cmp r11, "@ + dec_nat(tag as nat) + "  ; subject tag == match tag?"@).line(
        "jne "@ + skip + "  ; different types can never be equal"@,
    );
    lemma_extends_by_prefix(a, m);
    law_lowering_only_appends(t, a, match_value);
    let g = gen(t, a, match_value);
    lemma_extends_trans(m, a, g);
    let r = static_match_code(t, m, match_value, tag, skip);
    lemma_extends_by_prefix(r, g);
    lemma_extends_trans(m, g, r);
}

/// A tagged subject's comparison with a match of runtime tag only appends.
#[verifier::rlimit(60)]
#[verifier::spinoff_prover]
proof fn lemma_runtime_match_appends(t: CodeGenerator, m: Emission, match_value: Expr, tag: ClauseTag, skip: Seq<char>)
    ensures
        extends(runtime_match_code(t, m, match_value, tag, skip), m),
    decreases match_value, 3int,
{
    let m2 = m.take_label().take_label();
    lemma_extends_by_prefix(m2, m);
    law_lowering_only_appends(t, m2, match_value);
    let g = gen(t, m2, match_value);
    lemma_extends_trans(m, m2, g);
    let ti = tag_into_r11(g, tag, "match"@);
    lemma_extends_by_prefix(ti, g);
    lemma_extends_trans(m, g, ti);
    let r = runtime_match_code(t, m, match_value, tag, skip);
    assert(r.code.take(ti.code.len() as int) =~= ti.code);
    lemma_extends_by_prefix(r, ti);
    lemma_extends_trans(m, ti, r);
}

/// A `treating` clause compared by bytes only appends.
#[verifier::rlimit(80)]
#[verifier::spinoff_prover]
proof fn lemma_treating_bytes_appends(
    t: CodeGenerator,
    m2: Emission,
    e: Expr,
    skip: Seq<char>,
    done: Seq<char>,
)
    requires
        e is TreatingAs,
    ensures
        match e {
            Expr::TreatingAs { value, match_value, replacement } => extends(
                treating_bytes_code(t, m2, *value, *match_value, *replacement, skip, done),
                m2,
            ),
            _ => true,
        },
    decreases e, 0int,
{
    match e {
        Expr::TreatingAs { value, match_value, replacement } => {
            let is_buffer = subject_is_buffer(t, *value);
            let r = treating_bytes_code(t, m2, *value, *match_value, *replacement, skip, done);
            let ms = Emission { uses_strings: true, ..m2 };
            lemma_extends_by_prefix(ms, m2);
            law_lowering_only_appends(t, ms, *value);
            let gv = gen(t, ms, *value);
            lemma_extends_trans(m2, ms, gv);
            let m3 = gv.line("push rax  ; save original value (struct ptr if buffer)"@);
            lemma_extends_by_prefix(m3, gv);
            lemma_extends_trans(m2, gv, m3);
            let m4 = bytes_compare(t, m3, *match_value, is_buffer);
            lemma_bytes_compare_appends(t, m3, *match_value, is_buffer);
            lemma_extends_trans(m2, m3, m4);
            let a = m4.line("test rax, rax"@).line("jz "@ + skip).line("add rsp, 8  ; discard saved value"@);
            lemma_extends_by_prefix(a, m4);
            lemma_extends_trans(m2, m4, a);
            law_lowering_only_appends(t, a, *replacement);
            let gr = gen(t, a, *replacement);
            lemma_extends_trans(m2, a, gr);
            assert(r == gr.line("jmp "@ + done).label_here(skip).line("pop rax  ; restore original value"@).label_here(
                done,
            ));
            lemma_extends_by_prefix(r, gr);
            lemma_extends_trans(m2, gr, r);
        },
        _ => {},
    }
}

/// A byte comparison only appends.
#[verifier::rlimit(60)]
#[verifier::spinoff_prover]
proof fn lemma_bytes_compare_appends(t: CodeGenerator, m3: Emission, match_value: Expr, is_buffer: bool)
    ensures
        extends(bytes_compare(t, m3, match_value, is_buffer), m3),
    decreases match_value, 3int,
{
    let pre = if is_buffer {
        m3.line("mov rdi, rax"@).line("call _buffer_length"@).line("mov rdx, rax  ; len1"@).line(
            "mov rdi, [rsp]"@,
        ).line("call _buffer_data"@).line("mov rdi, rax  ; ptr1 = data"@)
    } else {
        m3.line("mov rdi, rax  ; comparison ptr in rdi"@)
    };
    lemma_extends_by_prefix(pre, m3);
    law_lowering_only_appends(t, pre, match_value);
    let gm = gen(t, pre, match_value);
    lemma_extends_trans(m3, pre, gm);
    let r = bytes_compare(t, m3, match_value, is_buffer);
    lemma_extends_by_prefix(r, gm);
    lemma_extends_trans(m3, gm, r);
}

/// A `treating` clause compared in registers only appends.
#[verifier::rlimit(60)]
#[verifier::spinoff_prover]
proof fn lemma_treating_registers_appends(
    t: CodeGenerator,
    m2: Emission,
    e: Expr,
    skip: Seq<char>,
    done: Seq<char>,
)
    requires
        e is TreatingAs,
    ensures
        match e {
            Expr::TreatingAs { value, match_value, replacement } => extends(
                treating_registers_code(t, m2, *value, *match_value, *replacement, skip, done),
                m2,
            ),
            _ => true,
        },
    decreases e, 0int,
{
    match e {
        Expr::TreatingAs { value, match_value, replacement } => {
            let r = treating_registers_code(t, m2, *value, *match_value, *replacement, skip, done);
            law_lowering_only_appends(t, m2, *value);
            let gv = gen(t, m2, *value);
            let p = gv.line("push rax  ; save original value"@);
            lemma_extends_by_prefix(p, gv);
            lemma_extends_trans(m2, gv, p);
            law_lowering_only_appends(t, p, *match_value);
            let gm = gen(t, p, *match_value);
            lemma_extends_trans(m2, p, gm);
            let m3 = gm.line("mov rbx, rax  ; match value"@).line("pop rax  ; restore original value"@).line(
                "cmp rax, rbx"@,
            ).line("jne "@ + skip);
            lemma_extends_by_prefix(m3, gm);
            lemma_extends_trans(m2, gm, m3);
            law_lowering_only_appends(t, m3, *replacement);
            let gr = gen(t, m3, *replacement);
            lemma_extends_trans(m2, m3, gr);
            assert(r == gr.line("jmp "@ + done).label_here(skip).label_here(done));
            lemma_extends_by_prefix(r, gr);
            lemma_extends_trans(m2, gr, r);
        },
        _ => {},
    }
}

/// A type predicate's lowering only appends.
#[verifier::rlimit(60)]
#[verifier::spinoff_prover]
proof fn lemma_type_check_appends(t: CodeGenerator, m: Emission, e: Expr)
    requires
        e is TypeCheck,
    ensures
        extends(gen(t, m, e), m),
    decreases e, 1int,
{
    reveal_with_fuel(gen, 1);
    match e {
        Expr::TypeCheck { value, type_noun } => {
            match pred_tag_at(t, *value) {
                Some(tag) => {
                    lemma_extends_by_prefix(type_check_folded(m, tag, type_noun), m);
                },
                None => {
                    let g = gen(t, m, *value);
                    law_lowering_only_appends(t, m, *value);
                    lemma_extends_by_prefix(type_check_test(t, g, *value, type_noun), g);
                    lemma_extends_trans(m, g, type_check_test(t, g, *value, type_noun));
                },
            }
        },
        _ => {},
    }
}

/// A binary operator's lowering only appends.
#[verifier::rlimit(60)]
#[verifier::spinoff_prover]
proof fn lemma_binary_only_appends(t: CodeGenerator, m: Emission, e: Expr)
    requires
        e is BinaryOp,
    ensures
        extends(gen(t, m, e), m),
    decreases e, 1int,
{
    lemma_gen_binary(t, m, e);
    match e {
        Expr::BinaryOp { left, op, right } => {
            let eqne = op == BinaryOperator::Equal || op == BinaryOperator::NotEqual;
            if eqne && (*left is NothingLit || *right is NothingLit) {
                lemma_nothing_compare_appends(t, m, e);
            } else if floats_in(t, *left) || floats_in(t, *right) {
                lemma_float_binary_appends(t, m, e);
            } else if eqne && ((stringy_at(t, *left) && never_stringy_at(t, *right)) || (stringy_at(t, *right)
                && never_stringy_at(t, *left))) {
                lemma_extends_by_prefix(gen(t, m, e), m);
            } else {
                lemma_int_binary_appends(t, m, e);
            }
        },
        _ => {},
    }
}

/// A comparison with `nothing` only appends.
#[verifier::rlimit(60)]
#[verifier::spinoff_prover]
proof fn lemma_nothing_compare_appends(t: CodeGenerator, m: Emission, e: Expr)
    requires
        e is BinaryOp,
    ensures
        extends(nothing_compare_code(t, m, e), m),
    decreases e, 0int,
{
    match e {
        Expr::BinaryOp { left, op, right } => {
            let equal = op == BinaryOperator::Equal;
            if *left is NothingLit && *right is NothingLit {
                lemma_extends_by_prefix(nothing_compare_code(t, m, e), m);
            } else {
                let v = if *left is NothingLit {
                    *right
                } else {
                    *left
                };
                match tag_at(t, v) {
                    Some(tag) => {
                        lemma_leaf_steps_extend(t, m, v, Property::Even, tag, equal);
                    },
                    None => {
                        if *left is NothingLit {
                            law_lowering_only_appends(t, m, *right);
                        } else {
                            law_lowering_only_appends(t, m, *left);
                        }
                        lemma_operand_steps_extend(t, gen(t, m, v), v, equal, op);
                        lemma_extends_trans(m, gen(t, m, v), nothing_tag_test(t, gen(t, m, v), v, equal));
                    },
                }
            }
        },
        _ => {},
    }
}

/// A float operation only appends.
#[verifier::rlimit(60)]
#[verifier::spinoff_prover]
proof fn lemma_float_binary_appends(t: CodeGenerator, m: Emission, e: Expr)
    requires
        e is BinaryOp,
    ensures
        extends(float_binary_code(t, m, e), m),
    decreases e, 0int,
{
    match e {
        Expr::BinaryOp { left, op, right } => {
            let fm = Emission { uses_floats: true, ..m };
            lemma_extends_by_prefix(fm, m);
            law_lowering_only_appends(t, fm, *right);
            let g1 = gen(t, fm, *right);
            let fr = float_right_done(g1, float_at(t, *right));
            lemma_operand_steps_extend(t, g1, *right, float_at(t, *right), op);
            law_lowering_only_appends(t, fr, *left);
            let g2 = gen(t, fr, *left);
            lemma_operand_steps_extend(t, g2, *left, float_at(t, *left), op);
            lemma_extends_trans(m, fm, g1);
            lemma_extends_trans(m, g1, fr);
            lemma_extends_trans(m, fr, g2);
            lemma_extends_trans(m, g2, float_left_done(g2, float_at(t, *left), op));
        },
        _ => {},
    }
}

/// An integer operation only appends.
#[verifier::rlimit(60)]
#[verifier::spinoff_prover]
proof fn lemma_int_binary_appends(t: CodeGenerator, m: Emission, e: Expr)
    requires
        e is BinaryOp,
    ensures
        extends(int_binary_code(t, m, e), m),
    decreases e, 0int,
{
    match e {
        Expr::BinaryOp { left, op, right } => {
            let arith = arithmetic_operator(op);
            let h = int_head(m, arith);
            lemma_operand_steps_extend(t, m, *right, arith, op);
            law_lowering_only_appends(t, h, *right);
            let g1 = gen(t, h, *right);
            lemma_operand_steps_extend(t, g1, *right, arith, op);
            let c1 = checked(t, arith, g1, *right);
            let p = c1.line("push rax"@);
            lemma_extends_by_prefix(p, c1);
            law_lowering_only_appends(t, p, *left);
            let g2 = gen(t, p, *left);
            lemma_operand_steps_extend(t, g2, *left, arith, op);
            let c2 = checked(t, arith, g2, *left);
            lemma_operand_steps_extend(t, c2, *left, arith, op);
            lemma_extends_trans(m, h, g1);
            lemma_extends_trans(m, g1, c1);
            lemma_extends_trans(m, c1, p);
            lemma_extends_trans(m, p, g2);
            lemma_extends_trans(m, g2, c2);
            lemma_extends_trans(m, c2, int_tail(c2, op));
        },
        _ => {},
    }
}

/// A generator with the tables of `t` decides as `t` does.
pub proof fn lemma_decisions_at(a: CodeGenerator, t: CodeGenerator, e: Expr)
    requires
        a.same_tables(&t),
    ensures
        tag_at(t, e) == a.emit_tag(e),
        source_at(t, e) == a.runtime_source(e),
        floats_in(t, e) == a.float_operands(e),
        float_at(t, e) == a.float_expr(e),
        type_at(t, e) == a.inferred(e),
        pred_tag_at(t, e) == a.predicate_tag(e),
{
    lemma_same_tables_decide(a, t, e);
    lemma_same_tables_fields(a, t);
    reveal(pred_tag_at);
    reveal(tag_at);
    reveal(source_at);
    reveal(floats_in);
    reveal(float_at);
    reveal(type_at);
}

/// A binary operator's code is [`binary_code`].
/// A `treating` clause is lowered by its tags when they decide, else by
/// value.
#[verifier::spinoff_prover]
#[verifier::rlimit(100)]
pub proof fn lemma_gen_treating(t: CodeGenerator, m: Emission, e: Expr)
    requires
        e is TreatingAs,
    ensures
        gen(t, m, e) == match e {
            Expr::TreatingAs { value, match_value, replacement } => if dispatch_of(
                t.subject_tag(*value),
                t.clause_tag(*match_value),
                t.clause_tag(*replacement),
            ) {
                treating_tagged_code(t, m, *value, *match_value, *replacement)
            } else {
                treating_plain_code(t, m, *value, *match_value, *replacement)
            },
            _ => m,
        },
{
    reveal_with_fuel(gen, 1);
    match e {
        Expr::TreatingAs { value, match_value, replacement } => {
            if !dispatch_of(t.subject_tag(*value), t.clause_tag(*match_value), t.clause_tag(*replacement)) {
                let skip = m.next_label("treating_skip"@);
                let m1 = m.take_label();
                let done = m1.next_label("treating_done"@);
                let m2 = m1.take_label();
                if by_bytes(t, *value, *match_value) {
                    let m3 = gen(t, Emission { uses_strings: true, ..m2 }, *value).line(
                        "push rax  ; save original value (struct ptr if buffer)"@,
                    );
                    let m4 = bytes_compare(t, m3, *match_value, subject_is_buffer(t, *value));
                    assert(gen(t, m, e) == gen(
                        t,
                        m4.line("test rax, rax"@).line("jz "@ + skip).line("add rsp, 8  ; discard saved value"@),
                        *replacement,
                    ).line("jmp "@ + done).label_here(skip).line("pop rax  ; restore original value"@).label_here(done));
                } else {
                    assert(gen(t, m, e) == treating_registers_code(t, m2, *value, *match_value, *replacement, skip, done));
                }
            }
        },
        _ => {},
    }
}

pub proof fn lemma_gen_binary(t: CodeGenerator, m: Emission, e: Expr)
    requires
        e is BinaryOp,
    ensures
        gen(t, m, e) == binary_code(t, m, e),
        lowerable(t, e) == binary_lowerable(t, e),
{
    reveal_with_fuel(gen, 1);
    lemma_lowerable_binary(t, e);
}




/// Whether a binary operator is lowered is [`binary_lowerable`].
pub proof fn lemma_lowerable_binary(t: CodeGenerator, e: Expr)
    requires
        e is BinaryOp,
    ensures
        lowerable(t, e) == binary_lowerable(t, e),
{
    reveal_with_fuel(lowerable, 1);
}

/// Generators that differ only in what lowering changes have the same
/// tables.
pub proof fn lemma_same_tables_fields(a: CodeGenerator, b: CodeGenerator)
    requires
        a.same_tables(&b),
    ensures
        a == (CodeGenerator {
            text: a.text,
            data_section: a.data_section,
            string_counter: a.string_counter,
            float_counter: a.float_counter,
            label_counter: a.label_counter,
            empty_string_label: a.empty_string_label,
            uses_floats: a.uses_floats,
            uses_ints: a.uses_ints,
            uses_strings: a.uses_strings,
            uses_time: a.uses_time,
            uses_files: a.uses_files,
            uses_proc: a.uses_proc,
            uses_lists: a.uses_lists,
            uses_maps: a.uses_maps,
            uses_heap: a.uses_heap,
            uses_buffers: a.uses_buffers,
            ..b
        }),
{
    reveal(CodeGenerator::tables);
    assert(a.tables().variables == b.tables().variables);
}

/// Generators that differ only in what lowering changes decide every
/// question about an expression alike.
pub proof fn lemma_same_tables_decide(a: CodeGenerator, b: CodeGenerator, e: Expr)
    requires
        a.same_tables(&b),
    ensures
        a.float_expr(e) == b.float_expr(e),
        a.inferred(e) == b.inferred(e),
        a.float_operands(e) == b.float_operands(e),
        a.leaves_r11(e) == b.leaves_r11(e),
        a.runtime_source(e) == b.runtime_source(e),
        a.emit_tag(e) == b.emit_tag(e),
        a.subject_tag(e) == b.subject_tag(e),
        a.clause_tag(e) == b.clause_tag(e),
    decreases e,
{
    lemma_same_tables_fields(a, b);
    match e {
        Expr::BinaryOp { left, right, .. } => {
            lemma_same_tables_decide(a, b, *left);
            lemma_same_tables_decide(a, b, *right);
        },
        Expr::UnaryOp { operand, .. } => {
            lemma_same_tables_decide(a, b, *operand);
        },
        Expr::TreatingAs { value, match_value, replacement } => {
            lemma_same_tables_decide(a, b, *value);
            lemma_same_tables_decide(a, b, *match_value);
            lemma_same_tables_decide(a, b, *replacement);
        },
        _ => {},
    }
    assert(a.float_expr(e) == b.float_expr(e));
    assert(a.inferred(e) == b.inferred(e));
    assert(a.float_operands(e) == b.float_operands(e));
    assert(a.leaves_r11(e) == b.leaves_r11(e));
    assert(a.runtime_source(e) == b.runtime_source(e));
    assert(a.emit_tag(e) == b.emit_tag(e));
}

/// Whether a global of type `t` must hold its empty value before its
/// declaration runs: the types whose zero would be read as a pointer.
pub open spec fn needs_forward_default(t: Type) -> bool {
    t is Text || t is Buffer || t is List || t is Dict || t is Value
}

/// Whether global `n` of `g` gets its empty value written ahead of its
/// declaration.
pub open spec fn forward_default_of(g: CodeGenerator, n: Seq<char>) -> bool {
    g.global_var_types@.contains_key(n) && needs_forward_default(g.global_var_types@[n])
        && g.global_var_labels@.contains_key(n)
}

/// The code writing each of `names`' empty values ahead of their
/// declarations, in turn.
pub open spec fn forward_defaults(g: CodeGenerator, m: Emission, names: Seq<Seq<char>>) -> Emission
    decreases names.len(),
{
    if names.len() == 0 {
        m
    } else {
        let m1 = forward_defaults(g, m, names.drop_last());
        let n = names.last();
        if forward_default_of(g, n) {
            type_default_code(
                g,
                m1,
                g.global_var_types@[n],
                VarTarget::Global(g.global_var_labels@[n]),
                n,
            )
        } else {
            m1
        }
    }
}

/// Generators with the same tables but for initialized globals agree on
/// what a type default reads.
proof fn lemma_tables_but_initialized_fields(a: CodeGenerator, b: CodeGenerator)
    requires
        a.tables_but_initialized() == b.tables_but_initialized(),
    ensures
        a.mixed_tag_slots == b.mixed_tag_slots,
        a.global_value_tag_labels == b.global_value_tag_labels,
        a.global_var_types == b.global_var_types,
        a.global_var_labels == b.global_var_labels,
        a.forward_typed_globals == b.forward_typed_globals,
{
    reveal(CodeGenerator::tables);
    reveal(CodeGenerator::tables_but_initialized);
    assert(a.tables_but_initialized().mixed_tag_slots == b.tables_but_initialized().mixed_tag_slots);
    assert(a.tables_but_initialized().global_value_tag_labels == b.tables_but_initialized().global_value_tag_labels);
    assert(a.tables_but_initialized().global_var_types == b.tables_but_initialized().global_var_types);
    assert(a.tables_but_initialized().global_var_labels == b.tables_but_initialized().global_var_labels);
    assert(a.tables_but_initialized().forward_typed_globals == b.tables_but_initialized().forward_typed_globals);
}

impl CodeGenerator {
    /// Before a program whose functions read globals declared below them:
    /// write each such global's empty value, in name order, where its zero
    /// would be read as a pointer. A number, float or boolean reads its zero
    /// as the right default already.
    pub fn emit_forward_global_defaults(&mut self)
        ensures
            exists|q: Seq<Seq<char>>|
                strictly_sorted(q) && q.to_set() == old(self).forward_typed_globals@ && final(self).emission()
                    == forward_defaults(*old(self), old(self).emission(), q),
            final(self).tables_but_initialized() == old(self).tables_but_initialized(),
            final(self).initialized_globals@ == old(self).initialized_globals@.union(
                Set::new(
                    |n: Seq<char>|
                        old(self).forward_typed_globals@.contains(n) && forward_default_of(*old(self), n) && old(
                            self,
                        ).global_var_types@[n] is Buffer,
                ),
            ),
    {
        let ghost start = *self;
        let all = self.forward_typed_globals.to_vec();
        let names = sorted_names(&all);
        let ghost q = views_of(names@);
        proof {
            assert(q.to_set() =~= start.forward_typed_globals@);
        }
        let mut i: usize = 0;
        while i < names.len()
            invariant
                i <= names@.len(),
                q == views_of(names@),
                q.to_set() == start.forward_typed_globals@,
                self.emission() == forward_defaults(start, start.emission(), q.take(i as int)),
                self.tables_but_initialized() == start.tables_but_initialized(),
                self.initialized_globals@ == start.initialized_globals@.union(
                    Set::new(
                        |n: Seq<char>|
                            q.take(i as int).contains(n) && forward_default_of(start, n)
                                && start.global_var_types@[n] is Buffer,
                    ),
                ),
            decreases names@.len() - i,
        {
            proof {
                lemma_tables_but_initialized_fields(*self, start);
                assert(q.take(i + 1).drop_last() =~= q.take(i as int));
                assert(q.take(i + 1).last() == names@[i as int]@);
            }
            let ghost before = self.initialized_globals@;
            let name = names[i].as_str();
            let ty = match self.global_var_types.get(name) {
                Some(t) => t.copy(),
                None => Type::Unknown,
            };
            let wanted = match ty {
                Type::Text | Type::Buffer | Type::List(_) | Type::Dict(_) | Type::Value => true,
                _ => false,
            };
            let label = match self.global_var_label(name) {
                Some(l) => Some(l.clone()),
                None => None,
            };
            if wanted && label.is_some() {
                let target = VarTarget::Global(label.unwrap());
                self.emit_type_default(&ty, &target, name);
                proof {
                    lemma_tables_but_initialized_fields(*self, start);
                }
            }
            proof {
                let k = names@[i as int]@;
                assert(forward_default_of(start, k) == (wanted && label is Some));
                assert forall|n: Seq<char>| q.take(i + 1).contains(n) <==> (q.take(i as int).contains(n) || n == k) by {
                    let prev = q.take(i as int);
                    let next = q.take(i + 1);
                    if next.contains(n) {
                        let j = choose|j: int| 0 <= j < next.len() && #[trigger] next[j] == n;
                        if j < i {
                            assert(prev[j] == n);
                        }
                    }
                    if prev.contains(n) {
                        let j = choose|j: int| 0 <= j < prev.len() && #[trigger] prev[j] == n;
                        assert(next[j] == n);
                    }
                    if n == k {
                        assert(next[i as int] == n);
                    }
                }
                assert(self.initialized_globals@ =~= start.initialized_globals@.union(
                    Set::new(
                        |n: Seq<char>|
                            q.take(i + 1).contains(n) && forward_default_of(start, n)
                                && start.global_var_types@[n] is Buffer,
                    ),
                ));
            }
            i = i + 1;
        }
        proof {
            assert(q.take(names@.len() as int) =~= q);
            assert forall|n: Seq<char>| q.contains(n) <==> start.forward_typed_globals@.contains(n) by {
                assert(q.to_set().contains(n) == q.contains(n));
            }
            assert(self.initialized_globals@ =~= start.initialized_globals@.union(
                Set::new(
                    |n: Seq<char>|
                        start.forward_typed_globals@.contains(n) && forward_default_of(start, n)
                            && start.global_var_types@[n] is Buffer,
                ),
            ));
        }
    }
}

} // verus!
