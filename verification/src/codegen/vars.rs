//! Storage: stack slots, global labels, string and float constants.
use vstd::prelude::*;
use crate::ast::{Expr, FloatLiteral, Program, Statement, Type, VarType};
use crate::codegen::{
    indented, label_text, lines_view, next_count, CodeGenerator, Constant, VarTarget,
};
use crate::text::{cat2, cat3, cat4, cat5, dec_int, dec_nat, i64_text, u64_text};
use crate::analyzer::decls::{block_definite, collect_definite_decls};
use crate::names::{sorted_names, strictly_sorted, views_of, NameMap};

verus! {

/// How a character is written inside a NASM `'...'` string.
pub open spec fn escaped_char(c: char) -> Seq<char> {
    if c == '\n' {
        "', 10, '"@
    } else if c == '\t' {
        "', 9, '"@
    } else if c == '\r' {
        "', 13, '"@
    } else if c == '\'' {
        "', 39, '"@
    } else {
        seq![c]
    }
}

/// A text as the inside of a NASM `'...'` string.
pub open spec fn escaped(s: Seq<char>) -> Seq<char>
    decreases s.len(),
{
    if s.len() == 0 {
        Seq::empty()
    } else {
        escaped(s.drop_last()) + escaped_char(s.last())
    }
}

/// The label of the `n`th string constant.
pub open spec fn string_label(n: u64) -> Seq<char> {
    "str_"@ + dec_nat(n as nat)
}

/// The two data lines that define string constant `label` as `s`.
pub open spec fn string_data_lines(label: Seq<char>, s: Seq<char>) -> Seq<Seq<char>> {
    seq![
        "    "@ + label + ": db '"@ + escaped(s) + "', 0"@,
        "    "@ + label + "_len: equ $ - "@ + label + " - 1"@,
    ]
}

/// The label of the `n`th global variable.
pub open spec fn global_label(n: u64) -> Seq<char> {
    "gvar_"@ + dec_nat(n as nat)
}

/// The storage class a declared type is read as.
pub open spec fn declared_vartype_of(t: Type) -> VarType {
    match t {
        Type::Text => VarType::Text,
        Type::Integer => VarType::Integer,
        Type::Float => VarType::Float,
        Type::Boolean => VarType::Boolean,
        Type::Buffer => VarType::Buffer,
        Type::List(_) => VarType::List,
        Type::Dict(_) => VarType::Dict,
        Type::Value => VarType::Mixed,
        _ => VarType::Unknown,
    }
}

/// The element type a list literal's first element proves for the list.
pub open spec fn literal_element_vartype(first: Expr) -> VarType {
    match first {
        Expr::StringLit(_) => VarType::Text,
        Expr::FormatString { .. } => VarType::Text,
        Expr::IntegerLit(_) => VarType::Integer,
        Expr::FloatLit(_) => VarType::Float,
        Expr::BoolLit(_) => VarType::Boolean,
        Expr::ListLit { .. } => VarType::List,
        _ => VarType::Unknown,
    }
}

/// The storage class a declared type is read as.
pub fn declared_vartype(t: &Type) -> (r: VarType)
    ensures
        r == declared_vartype_of(*t),
{
    match t {
        Type::Text => VarType::Text,
        Type::Integer => VarType::Integer,
        Type::Float => VarType::Float,
        Type::Boolean => VarType::Boolean,
        Type::Buffer => VarType::Buffer,
        Type::List(_) => VarType::List,
        Type::Dict(_) => VarType::Dict,
        Type::Value => VarType::Mixed,
        _ => VarType::Unknown,
    }
}

/// The element type a list literal's first element proves for the list.
pub fn list_literal_element_vartype(first: &Expr) -> (r: VarType)
    ensures
        r == literal_element_vartype(*first),
{
    match first {
        Expr::StringLit(_) => VarType::Text,
        Expr::FormatString { .. } => VarType::Text,
        Expr::IntegerLit(_) => VarType::Integer,
        Expr::FloatLit(_) => VarType::Float,
        Expr::BoolLit(_) => VarType::Boolean,
        Expr::ListLit { .. } => VarType::List,
        _ => VarType::Unknown,
    }
}

impl VarTarget {
    pub fn local_offset(&self) -> (r: Option<i64>)
        ensures
            r == match *self {
                VarTarget::Local(o) => Some(o),
                VarTarget::Global(_) => None,
            },
    {
        match self {
            VarTarget::Local(o) => Some(*o),
            VarTarget::Global(_) => None,
        }
    }

    pub fn global_label(&self) -> (r: Option<&str>)
        ensures
            match *self {
                VarTarget::Local(_) => r is None,
                VarTarget::Global(l) => r matches Some(x) && x@ == l@,
            },
    {
        match self {
            VarTarget::Local(_) => None,
            VarTarget::Global(l) => Some(l.as_str()),
        }
    }
}

impl CodeGenerator {
    /// The rbp offset of a local.
    pub fn get_var(&self, name: &str) -> (r: Option<i64>)
        ensures
            r == (if self.variables@.contains_key(name@) {
                Some(self.variables@[name@])
            } else {
                None
            }),
    {
        match self.variables.get(name) {
            Some(o) => Some(*o),
            None => None,
        }
    }

    /// A fresh stack slot for `name`, eight bytes below the last.
    pub fn alloc_var(&mut self, name: &str) -> (r: i64)
        requires
            old(self).stack_offset <= i64::MAX - 8,
        ensures
            r == old(self).stack_offset + 8,
            final(self).stack_offset == r,
            final(self).variables@ == old(self).variables@.insert(name@, r),
            *final(self) == (CodeGenerator {
                stack_offset: final(self).stack_offset,
                variables: final(self).variables,
                ..*old(self)
            }),
    {
        self.stack_offset = self.stack_offset + 8;
        self.variables.insert(String::from_str(name), self.stack_offset);
        self.stack_offset
    }

    /// The bss label of a global, if it has one.
    pub fn global_var_label(&self, name: &str) -> (r: Option<&String>)
        ensures
            match r {
                Some(l) => self.global_var_labels@.contains_key(name@) && *l == self.global_var_labels@[name@],
                None => !self.global_var_labels@.contains_key(name@),
            },
    {
        self.global_var_labels.get(name)
    }

    /// Give `name` a bss quadword under a fresh `gvar_N` label, unless it
    /// has one already.
    pub fn ensure_global_var_label(&mut self, name: &str)
        ensures
            old(self).global_var_labels@.contains_key(name@) ==> *final(self) == *old(self),
            !old(self).global_var_labels@.contains_key(name@) ==> {
                &&& final(self).global_var_labels@ == old(self).global_var_labels@.insert(
                    name@,
                    final(self).global_var_labels@[name@],
                )
                &&& final(self).global_var_labels@[name@]@ == global_label(old(self).global_var_counter)
                &&& final(self).global_var_counter == next_count(old(self).global_var_counter)
                &&& lines_view(final(self).bss_section@) == lines_view(old(self).bss_section@).push(
                    "    "@ + global_label(old(self).global_var_counter) + ": resq 1"@,
                )
                &&& *final(self) == (CodeGenerator {
                    global_var_labels: final(self).global_var_labels,
                    global_var_counter: final(self).global_var_counter,
                    bss_section: final(self).bss_section,
                    ..*old(self)
                })
            },
    {
        if self.global_var_labels.contains_key(name) {
            return;
        }
        let n = u64_text(self.global_var_counter);
        let label = cat2("gvar_", n.as_str());
        self.global_var_counter = if self.global_var_counter < u64::MAX {
            self.global_var_counter + 1
        } else {
            0
        };
        let line = cat3("    ", label.as_str(), ": resq 1");
        self.global_var_labels.insert(String::from_str(name), label);
        self.bss_section.push(line);
        assert(lines_view(self.bss_section@) =~= lines_view(old(self).bss_section@).push(
            "    "@ + global_label(old(self).global_var_counter) + ": resq 1"@,
        ));
    }

    /// The bss byte holding a top-level `value`'s runtime tag: the payload's
    /// own label (or the name) with `_tag`, allocated on first use.
    pub fn ensure_global_value_tag_label(&mut self, name: &str) -> (r: String)
        ensures
            old(self).global_value_tag_labels@.contains_key(name@) ==> {
                &&& r == old(self).global_value_tag_labels@[name@]
                &&& *final(self) == *old(self)
            },
            !old(self).global_value_tag_labels@.contains_key(name@) ==> {
                &&& r@ == (if old(self).global_var_labels@.contains_key(name@) {
                    old(self).global_var_labels@[name@]@
                } else {
                    name@
                }) + "_tag"@
                &&& final(self).global_value_tag_labels@ == old(self).global_value_tag_labels@.insert(name@, r)
                &&& lines_view(final(self).bss_section@) == lines_view(old(self).bss_section@).push(
                    "    "@ + r@ + ": resb 1"@,
                )
                &&& *final(self) == (CodeGenerator {
                    global_value_tag_labels: final(self).global_value_tag_labels,
                    bss_section: final(self).bss_section,
                    ..*old(self)
                })
            },
    {
        if let Some(label) = self.global_value_tag_labels.get(name) {
            return label.clone();
        }
        self.add_value_tag_label(name)
    }

    fn add_value_tag_label(&mut self, name: &str) -> (r: String)
        requires
            !old(self).global_value_tag_labels@.contains_key(name@),
        ensures
            r@ == (if old(self).global_var_labels@.contains_key(name@) {
                old(self).global_var_labels@[name@]@
            } else {
                name@
            }) + "_tag"@,
            final(self).global_value_tag_labels@ == old(self).global_value_tag_labels@.insert(name@, r),
            lines_view(final(self).bss_section@) == lines_view(old(self).bss_section@).push(
                "    "@ + r@ + ": resb 1"@,
            ),
            *final(self) == (CodeGenerator {
                global_value_tag_labels: final(self).global_value_tag_labels,
                bss_section: final(self).bss_section,
                ..*old(self)
            }),
    {
        let payload_label = match self.global_var_label(name) {
            Some(l) => l.clone(),
            None => String::from_str(name),
        };
        let label = cat2(payload_label.as_str(), "_tag");
        let mut labels = NameMap::new();
        std::mem::swap(&mut labels, &mut self.global_value_tag_labels);
        labels.insert(String::from_str(name), label.clone());
        self.global_value_tag_labels = labels;
        let mut bss: Vec<String> = Vec::new();
        std::mem::swap(&mut bss, &mut self.bss_section);
        bss.push(cat3("    ", label.as_str(), ": resb 1"));
        self.bss_section = bss;
        assert(lines_view(self.bss_section@) =~= lines_view(old(self).bss_section@).push(
            "    "@ + label@ + ": resb 1"@,
        ));
        label
    }

    /// The bss byte recording whether a global text owns its string: the
    /// payload's own label (or the name) with `_owned`, allocated on first
    /// use.
    pub fn ensure_global_text_owned_label(&mut self, name: &str) -> (r: String)
        ensures
            old(self).global_text_owned_labels@.contains_key(name@) ==> {
                &&& r == old(self).global_text_owned_labels@[name@]
                &&& *final(self) == *old(self)
            },
            !old(self).global_text_owned_labels@.contains_key(name@) ==> {
                &&& r@ == (if old(self).global_var_labels@.contains_key(name@) {
                    old(self).global_var_labels@[name@]@
                } else {
                    name@
                }) + "_owned"@
                &&& final(self).global_text_owned_labels@ == old(self).global_text_owned_labels@.insert(name@, r)
                &&& lines_view(final(self).bss_section@) == lines_view(old(self).bss_section@).push(
                    "    "@ + r@ + ": resb 1"@,
                )
                &&& *final(self) == (CodeGenerator {
                    global_text_owned_labels: final(self).global_text_owned_labels,
                    bss_section: final(self).bss_section,
                    ..*old(self)
                })
            },
    {
        if let Some(label) = self.global_text_owned_labels.get(name) {
            return label.clone();
        }
        self.add_text_owned_label(name)
    }

    fn add_text_owned_label(&mut self, name: &str) -> (r: String)
        requires
            !old(self).global_text_owned_labels@.contains_key(name@),
        ensures
            r@ == (if old(self).global_var_labels@.contains_key(name@) {
                old(self).global_var_labels@[name@]@
            } else {
                name@
            }) + "_owned"@,
            final(self).global_text_owned_labels@ == old(self).global_text_owned_labels@.insert(name@, r),
            lines_view(final(self).bss_section@) == lines_view(old(self).bss_section@).push(
                "    "@ + r@ + ": resb 1"@,
            ),
            *final(self) == (CodeGenerator {
                global_text_owned_labels: final(self).global_text_owned_labels,
                bss_section: final(self).bss_section,
                ..*old(self)
            }),
    {
        let payload_label = match self.global_var_label(name) {
            Some(l) => l.clone(),
            None => String::from_str(name),
        };
        let label = cat2(payload_label.as_str(), "_owned");
        let mut labels = NameMap::new();
        std::mem::swap(&mut labels, &mut self.global_text_owned_labels);
        labels.insert(String::from_str(name), label.clone());
        self.global_text_owned_labels = labels;
        let mut bss: Vec<String> = Vec::new();
        std::mem::swap(&mut bss, &mut self.bss_section);
        bss.push(cat3("    ", label.as_str(), ": resb 1"));
        self.bss_section = bss;
        assert(lines_view(self.bss_section@) =~= lines_view(old(self).bss_section@).push(
            "    "@ + label@ + ": resb 1"@,
        ));
        label
    }

    /// Emit a store of rax into `target`, commented with `name`.
    pub fn emit_store_rax_to_target(&mut self, target: &VarTarget, name: &str)
        ensures
            final(self).code() == old(self).code().push(
                indented(
                    match *target {
                        VarTarget::Local(o) => "mov [rbp-"@ + dec_int(o as int) + "], rax  ; store "@ + name@,
                        VarTarget::Global(l) => "mov [rel "@ + l@ + "], rax  ; global store "@ + name@,
                    },
                ),
            ),
            final(self).only_text_grew(old(self)),
    {
        match target {
            VarTarget::Local(offset) => {
                let o = i64_text(*offset);
                self.emit_indent(cat4("mov [rbp-", o.as_str(), "], rax  ; store ", name).as_str());
            },
            VarTarget::Global(label) => {
                self.emit_indent(cat4("mov [rel ", label.as_str(), "], rax  ; global store ", name).as_str());
            },
        }
    }

    /// Emit a load of a named variable into rax, from its stack slot or else
    /// its global label; false (and nothing emitted) if it has neither.
    #[verifier::rlimit(50)]
    pub fn emit_load_named_var_into_rax(&mut self, name: &str) -> (r: bool)
        ensures
            r == (old(self).variables@.contains_key(name@) || old(self).global_var_labels@.contains_key(name@)),
            old(self).variables@.contains_key(name@) ==> final(self).code() == old(self).code().push(
                indented("mov rax, [rbp-"@ + dec_int(old(self).variables@[name@] as int) + "]"@),
            ),
            !old(self).variables@.contains_key(name@) && old(self).global_var_labels@.contains_key(name@)
                ==> final(self).code() == old(self).code().push(
                indented("mov rax, [rel "@ + old(self).global_var_labels@[name@]@ + "]"@),
            ),
            !r ==> final(self).code() == old(self).code(),
            final(self).only_text_grew(old(self)),
    {
        if let Some(offset) = self.get_var(name) {
            let o = i64_text(offset);
            self.emit_indent(cat3("mov rax, [rbp-", o.as_str(), "]").as_str());
            true
        } else if let Some(label) = self.global_var_label(name) {
            let line = cat3("mov rax, [rel ", label.as_str(), "]");
            self.emit_indent(line.as_str());
            true
        } else {
            false
        }
    }

    /// Emit a load of a named variable's pointer into rax, commented.
    #[verifier::rlimit(50)]
    pub fn emit_load_named_var_addr(&mut self, name: &str) -> (r: bool)
        ensures
            r == (old(self).variables@.contains_key(name@) || old(self).global_var_labels@.contains_key(name@)),
            old(self).variables@.contains_key(name@) ==> final(self).code() == old(self).code().push(
                indented("mov rax, [rbp-"@ + dec_int(old(self).variables@[name@] as int) + "]  ; local "@ + name@),
            ),
            !old(self).variables@.contains_key(name@) && old(self).global_var_labels@.contains_key(name@)
                ==> final(self).code() == old(self).code().push(
                indented("mov rax, [rel "@ + old(self).global_var_labels@[name@]@ + "]  ; global mirror "@ + name@),
            ),
            !r ==> final(self).code() == old(self).code(),
            final(self).only_text_grew(old(self)),
    {
        if let Some(offset) = self.get_var(name) {
            let o = i64_text(offset);
            self.emit_indent(cat4("mov rax, [rbp-", o.as_str(), "]  ; local ", name).as_str());
            true
        } else if let Some(label) = self.global_var_label(name) {
            let line = cat4("mov rax, [rel ", label.as_str(), "]  ; global mirror ", name);
            self.emit_indent(line.as_str());
            true
        } else {
            false
        }
    }

    /// At the top level, copy a stack variable to its global mirror, so
    /// function bodies see what the top level wrote.
    #[verifier::rlimit(50)]
    pub fn emit_mirror_stack_var_to_global_if_needed(&mut self, name: &str, offset: i64)
        ensures
            (!old(self).in_function_codegen && old(self).global_var_labels@.contains_key(name@)) ==> final(self).code()
                == old(self).code().push(indented("mov rax, [rbp-"@ + dec_int(offset as int) + "]"@)).push(
                indented("mov [rel "@ + old(self).global_var_labels@[name@]@ + "], rax"@),
            ),
            !(!old(self).in_function_codegen && old(self).global_var_labels@.contains_key(name@)) ==> final(self).code()
                == old(self).code(),
            final(self).only_text_grew(old(self)),
    {
        if !self.in_function_codegen {
            if let Some(label) = self.global_var_label(name) {
                let store = cat3("mov [rel ", label.as_str(), "], rax");
                let o = i64_text(offset);
                self.emit_indent(cat3("mov rax, [rbp-", o.as_str(), "]").as_str());
                self.emit_indent(store.as_str());
            }
        }
    }

    /// Define a string constant in the data section under a fresh `str_N`
    /// label, with its length beside it as `str_N_len`.
    pub fn add_string(&mut self, s: &str) -> (r: String)
        ensures
            r@ == string_label(old(self).string_counter),
            final(self).string_counter == next_count(old(self).string_counter),
            lines_view(final(self).data_section@) == lines_view(old(self).data_section@) + string_data_lines(r@, s@),
            *final(self) == (CodeGenerator {
                string_counter: final(self).string_counter,
                data_section: final(self).data_section,
                ..*old(self)
            }),
    {
        let n = u64_text(self.string_counter);
        let label = cat2("str_", n.as_str());
        self.string_counter = if self.string_counter < u64::MAX {
            self.string_counter + 1
        } else {
            0
        };
        let len = s.unicode_len();
        let mut esc = String::from_str("");
        proof {
            reveal_strlit("");
        }
        let mut i: usize = 0;
        while i < len
            invariant
                len == s@.len(),
                i <= len,
                esc@ == escaped(s@.take(i as int)),
            decreases len - i,
        {
            let c = s.get_char(i);
            if c == '\n' {
                esc.append("', 10, '");
            } else if c == '\t' {
                esc.append("', 9, '");
            } else if c == '\r' {
                esc.append("', 13, '");
            } else if c == '\'' {
                esc.append("', 39, '");
            } else {
                let piece = s.substring_char(i, i + 1);
                assert(piece@ == seq![c]);
                esc.append(piece);
            }
            assert(s@.take(i + 1).drop_last() == s@.take(i as int));
            i = i + 1;
        }
        assert(s@.take(len as int) == s@);
        let first = cat5("    ", label.as_str(), ": db '", esc.as_str(), "', 0");
        let second = cat5("    ", label.as_str(), "_len: equ $ - ", label.as_str(), " - 1");
        self.data_section.push(first);
        self.data_section.push(second);
        assert(lines_view(self.data_section@) =~= lines_view(old(self).data_section@) + string_data_lines(
            label@,
            s@,
        ));
        label
    }

    /// The shared empty-text label, defined on first use.
    pub fn get_empty_string_label(&mut self) -> (r: String)
        ensures
            old(self).empty_string_label matches Some(l) ==> r == l && *final(self) == *old(self),
            old(self).empty_string_label is None ==> {
                &&& r@ == string_label(old(self).string_counter)
                &&& final(self).empty_string_label == Some(r)
                &&& final(self).string_counter == next_count(old(self).string_counter)
                &&& lines_view(final(self).data_section@) == lines_view(old(self).data_section@) + string_data_lines(r@, ""@)
                &&& *final(self) == (CodeGenerator {
                    string_counter: final(self).string_counter,
                    data_section: final(self).data_section,
                    empty_string_label: final(self).empty_string_label,
                    ..*old(self)
                })
            },
    {
        if let Some(label) = &self.empty_string_label {
            return label.clone();
        }
        let label = self.add_string("");
        self.empty_string_label = Some(label.clone());
        label
    }

    /// Define a float constant in the data section under a fresh `float_N`
    /// label, as its IEEE-754 bits with its spelling as a comment.
    pub fn add_float(&mut self, f: &FloatLiteral) -> (r: String)
        ensures
            r@ == "float_"@ + dec_nat(old(self).float_counter as nat),
            final(self).float_counter == next_count(old(self).float_counter),
            final(self).data_section@.len() == old(self).data_section@.len() + 1,
            forall|i: int| 0 <= i < old(self).data_section@.len() ==> final(self).data_section@[i] == old(self).data_section@[i],
            final(self).data_section@.last()@ == "    "@ + r@ + ": dq 0x"@ + crate::codegen::format::hex16(f.bits) + "  ; "@ + f.text@,
            *final(self) == (CodeGenerator {
                float_counter: final(self).float_counter,
                data_section: final(self).data_section,
                ..*old(self)
            }),
    {
        let n = u64_text(self.float_counter);
        let label = cat2("float_", n.as_str());
        self.float_counter = if self.float_counter < u64::MAX {
            self.float_counter + 1
        } else {
            0
        };
        let hex = crate::codegen::format::hex16_text(f.bits);
        let line = cat5("    ", label.as_str(), ": dq 0x", hex.as_str(), "  ; ");
        let line = cat2(line.as_str(), f.text.as_str());
        self.data_section.push(line);
        label
    }

    /// The constants the top level declares: a name declared with a text,
    /// number or boolean literal.
    pub fn collect_global_constants(&mut self, program: &Program)
        ensures
            final(self).global_constants@ == declared_constants(program.statements@),
            *final(self) == (CodeGenerator { global_constants: final(self).global_constants, ..*old(self) }),
    {
        let mut constants: NameMap<Constant> = NameMap::new();
        proof {
            assert(program.statements@.take(0) =~= Seq::<Statement>::empty());
        }
        let mut i: usize = 0;
        while i < program.statements.len()
            invariant
                i <= program.statements@.len(),
                constants@ == declared_constants(program.statements@.take(i as int)),
            decreases program.statements@.len() - i,
        {
            proof {
                assert(program.statements@.take(i + 1).drop_last() =~= program.statements@.take(i as int));
                assert(program.statements@.take(i + 1).last() == program.statements@[i as int]);
            }
            if let Statement::VarDecl { name, value: Some(expr), .. } = &program.statements[i] {
                let c = match expr {
                    Expr::StringLit(s) => Some(Constant::Text(s.clone())),
                    Expr::IntegerLit(n) => Some(Constant::Integer(*n)),
                    Expr::BoolLit(b) => Some(Constant::Boolean(*b)),
                    _ => None,
                };
                if let Some(c) = c {
                    constants.insert(name.clone(), c);
                }
            }
            i = i + 1;
        }
        proof {
            assert(program.statements@.take(program.statements@.len() as int) =~= program.statements@);
        }
        self.global_constants = constants;
    }
}

/// The type an undeclared name takes from the value that brings it into
/// being: a boolean literal is a boolean though it is stored as a number,
/// a list or a map of unknown elements; a buffer, a `value` or an unknown
/// type gives none.
pub open spec fn untyped_decl_type(inferred: Option<VarType>, value: Expr) -> Option<Type> {
    match inferred {
        Some(VarType::Integer) => if value is BoolLit {
            Some(Type::Boolean)
        } else {
            Some(Type::Integer)
        },
        Some(VarType::Float) => Some(Type::Float),
        Some(VarType::Text) => Some(Type::Text),
        Some(VarType::Boolean) => Some(Type::Boolean),
        Some(VarType::List) => Some(Type::List(Box::new(Type::Unknown))),
        Some(VarType::Dict) => Some(Type::Dict(Box::new(Type::Unknown))),
        _ => None,
    }
}

/// The constant a top-level declaration's value gives its name, if any.
pub open spec fn constant_of(e: Expr) -> Option<Constant> {
    match e {
        Expr::StringLit(s) => Some(Constant::Text(s)),
        Expr::IntegerLit(n) => Some(Constant::Integer(n)),
        Expr::BoolLit(b) => Some(Constant::Boolean(b)),
        _ => None,
    }
}

/// The names `stmts` declare with a literal, and the constants they hold:
/// a later declaration of a name wins.
pub open spec fn declared_constants(stmts: Seq<Statement>) -> Map<Seq<char>, Constant>
    decreases stmts.len(),
{
    if stmts.len() == 0 {
        Map::empty()
    } else {
        let m = declared_constants(stmts.drop_last());
        match stmts.last() {
            Statement::VarDecl { name, value: Some(v), .. } => match constant_of(v) {
                Some(c) => m.insert(name@, c),
                None => m,
            },
            _ => m,
        }
    }
}

/// Whether writing `source` into a text gives the text a string of its
/// own: a format string and a conversion to text from another type build a
/// fresh one, a buffer's text is copied out; anything else shares.
pub open spec fn owns_written_text(g: CodeGenerator, source: Expr) -> bool {
    match source {
        Expr::FormatString { .. } => true,
        Expr::Cast { target_type: Type::Text, value, .. } => g.inferred(*value) != Some(VarType::Text),
        _ => g.inferred(source) == Some(VarType::Buffer),
    }
}

/// The label of the byte that says whether global `name` owns its text,
/// as it is after [`CodeGenerator::ensure_global_text_owned_label`].
pub open spec fn owned_flag_label(g: CodeGenerator, name: Seq<char>) -> Seq<char> {
    if g.global_text_owned_labels@.contains_key(name) {
        g.global_text_owned_labels@[name]@
    } else {
        (if g.global_var_labels@.contains_key(name) {
            g.global_var_labels@[name]@
        } else {
            name
        }) + "_owned"@
    }
}

/// The code storing rax into the global text `name` at `label`: the old
/// string is freed first when the flag at `flag` says the text owned it,
/// and the flag is then set to whether the new one is owned.
pub open spec fn owned_store_lines(
    name: Seq<char>,
    label: Seq<char>,
    flag: Seq<char>,
    skip: Seq<char>,
    owned: bool,
) -> Seq<Seq<char>> {
    seq![
        indented("push rax  ; new value for "@ + name + ", across its old one's free check"@),
        indented("cmp byte [rel "@ + flag + "], 0  ; was the current "@ + name + " owned?"@),
        indented("je "@ + skip),
        indented("mov rdi, [rel "@ + label + "]  ; the string "@ + name + " no longer holds"@),
        indented("sub rdi, 24  ; text data pointer -> its buffer struct"@),
        indented("call _free_buffer  ; the old string goes back to the heap"@),
        skip + ":"@,
        indented("pop rax  ; restore the new value"@),
        indented("mov [rel "@ + label + "], rax"@),
        indented("mov byte [rel "@ + flag + "], "@ + (if owned {
            "1"@
        } else {
            "0"@
        }) + "  ; "@ + name + " owned flag"@),
    ]
}

/// Append the definition of a label to a list of lines.
pub(crate) fn push_label_line(v: &mut Vec<String>, label: &str)
    ensures
        lines_view(final(v)@) == lines_view(old(v)@).push(label@ + ":"@),
{
    v.push(cat2(label, ":"));
    assert(lines_view(v@) =~= lines_view(old(v)@).push(label@ + ":"@));
}

/// Append one indented instruction to a list of lines.
pub(crate) fn push_line(v: &mut Vec<String>, line: &str)
    ensures
        lines_view(final(v)@) == lines_view(old(v)@).push(indented(line@)),
{
    v.push(cat2("    ", line));
    assert(lines_view(v@) =~= lines_view(old(v)@).push(indented(line@)));
}

impl CodeGenerator {
    /// Whether writing `source` into a text gives it a string of its own.
    pub fn text_write_is_owned(&self, source: &Expr) -> (r: bool)
        ensures
            r == owns_written_text(*self, *source),
    {
        match source {
            Expr::FormatString { .. } => true,
            Expr::Cast { target_type: Type::Text, value, .. } => self.infer_expr_type(value) != Some(VarType::Text),
            _ => self.infer_expr_type(source) == Some(VarType::Buffer),
        }
    }

    /// Store rax into the global text `name`, at `label`, freeing the
    /// string it held when it owned that one, and record whether it owns
    /// the new one.
    #[verifier::rlimit(100)]
    pub fn emit_owned_text_global_store(&mut self, name: &str, label: &str, source: &Expr)
        ensures
            final(self).code() == old(self).code() + owned_store_lines(
                name@,
                label@,
                owned_flag_label(*old(self), name@),
                label_text("text_not_owned"@, old(self).label_counter),
                owns_written_text(*old(self), *source),
            ),
            final(self).uses_buffers,
            final(self).label_counter == next_count(old(self).label_counter),
            final(self).global_text_owned_labels@.contains_key(name@),
            final(self).global_text_owned_labels@[name@]@ == owned_flag_label(*old(self), name@),
            final(self).global_text_owned_labels@ == old(self).global_text_owned_labels@.insert(
                name@,
                final(self).global_text_owned_labels@[name@],
            ),
            old(self).global_text_owned_labels@.contains_key(name@) ==> final(self).bss_section
                == old(self).bss_section,
            !old(self).global_text_owned_labels@.contains_key(name@) ==> lines_view(final(self).bss_section@)
                == lines_view(old(self).bss_section@).push(
                "    "@ + owned_flag_label(*old(self), name@) + ": resb 1"@,
            ),
            *final(self) == (CodeGenerator {
                text: final(self).text,
                uses_buffers: final(self).uses_buffers,
                label_counter: final(self).label_counter,
                global_text_owned_labels: final(self).global_text_owned_labels,
                bss_section: final(self).bss_section,
                ..*old(self)
            }),
    {
        let ghost start = *self;
        let owned = self.text_write_is_owned(source);
        self.uses_buffers = true;
        let flag_label = self.ensure_global_text_owned_label(name);
        let skip_label = self.new_label("text_not_owned");
        let bit = if owned {
            "1"
        } else {
            "0"
        };
        // The lines are put together aside and appended at once.
        let mut t: Vec<String> = Vec::new();
        std::mem::swap(&mut t, &mut self.text);
        let ghost before = lines_view(t@);
        push_line(&mut t, cat3("push rax  ; new value for ", name, ", across its old one's free check").as_str());
        push_line(
            &mut t,
            cat5("cmp byte [rel ", flag_label.as_str(), "], 0  ; was the current ", name, " owned?").as_str(),
        );
        push_line(&mut t, cat2("je ", skip_label.as_str()).as_str());
        push_line(&mut t, cat5("mov rdi, [rel ", label, "]  ; the string ", name, " no longer holds").as_str());
        push_line(&mut t, "sub rdi, 24  ; text data pointer -> its buffer struct");
        push_line(&mut t, "call _free_buffer  ; the old string goes back to the heap");
        push_label_line(&mut t, skip_label.as_str());
        push_line(&mut t, "pop rax  ; restore the new value");
        push_line(&mut t, cat3("mov [rel ", label, "], rax").as_str());
        let front = cat5("mov byte [rel ", flag_label.as_str(), "], ", bit, "  ; ");
        push_line(&mut t, cat3(front.as_str(), name, " owned flag").as_str());
        self.text = t;
        proof {
            assert(before == start.code());
            assert(self.code() =~= start.code() + owned_store_lines(
                name@,
                label@,
                owned_flag_label(start, name@),
                label_text("text_not_owned"@, start.label_counter),
                owns_written_text(start, *source),
            ));
        }
    }

    /// Give a name declared without a type the type of the value that
    /// declares it, unless it has one already.
    pub fn declare_untyped_from_value(&mut self, name: &str, value: &Expr)
        ensures
            old(self).variable_types@.contains_key(name@) || untyped_decl_type(old(self).inferred(*value), *value)
                is None ==> *final(self) == *old(self),
            !old(self).variable_types@.contains_key(name@) ==> (untyped_decl_type(old(self).inferred(*value), *value)
                matches Some(t) ==> {
                &&& final(self).variable_types@ == old(self).variable_types@.insert(name@, declared_vartype_of(t))
                &&& final(self).declared_types@ == old(self).declared_types@.insert(name@, t)
                &&& *final(self) == (CodeGenerator {
                    variable_types: final(self).variable_types,
                    declared_types: final(self).declared_types,
                    ..*old(self)
                })
            }),
    {
        if self.variable_types.contains_key(name) {
            return;
        }
        let inferred = match self.infer_expr_type(value) {
            Some(t) => t,
            None => {
                return;
            },
        };
        let declared = match inferred {
            // A boolean is stored as 0/1 but is a boolean all the same.
            VarType::Integer => match value {
                Expr::BoolLit(_) => Type::Boolean,
                _ => Type::Integer,
            },
            VarType::Float => Type::Float,
            VarType::Text => Type::Text,
            VarType::Boolean => Type::Boolean,
            VarType::List => Type::List(Box::new(Type::Unknown)),
            VarType::Dict => Type::Dict(Box::new(Type::Unknown)),
            // A buffer reaches its storage by its own paths; the others are
            // not known statically, as an unlabelled slot already says.
            _ => {
                return;
            },
        };
        let vt = declared_vartype(&declared);
        self.variable_types.insert(String::from_str(name), vt);
        self.declared_types.insert(String::from_str(name), declared);
    }
}


/// Whether a function body takes `n`'s type from its top-level declaration:
/// a typed global with no type of its own yet.
pub open spec fn seeded(g: CodeGenerator, n: Seq<char>) -> bool {
    g.global_var_types@.contains_key(n) && !g.variable_types@.contains_key(n)
}

/// The storage classes after seeding the names `done` says are seeded.
pub open spec fn seeded_types(g: CodeGenerator, done: spec_fn(Seq<char>) -> bool) -> Map<Seq<char>, VarType> {
    Map::new(
        |n: Seq<char>| g.variable_types@.contains_key(n) || (seeded(g, n) && done(n)),
        |n: Seq<char>|
            if g.variable_types@.contains_key(n) {
                g.variable_types@[n]
            } else {
                declared_vartype_of(g.global_var_types@[n])
            },
    )
}

/// The declared types after seeding: a name's own declaration first.
pub open spec fn seeded_declared(g: CodeGenerator, done: spec_fn(Seq<char>) -> bool) -> Map<Seq<char>, Type> {
    Map::new(
        |n: Seq<char>| g.declared_types@.contains_key(n) || (seeded(g, n) && done(n)),
        |n: Seq<char>|
            if g.declared_types@.contains_key(n) {
                g.declared_types@[n]
            } else {
                g.global_var_types@[n]
            },
    )
}

/// The element types after seeding: a seeded list takes the element type
/// its declaration proved.
pub open spec fn seeded_elements(g: CodeGenerator, done: spec_fn(Seq<char>) -> bool) -> Map<Seq<char>, VarType> {
    Map::new(
        |n: Seq<char>| g.list_element_types@.contains_key(n) || (seeded(g, n) && done(n)
            && g.global_list_element_types@.contains_key(n)),
        |n: Seq<char>|
            if seeded(g, n) && done(n) && g.global_list_element_types@.contains_key(n) {
                g.global_list_element_types@[n]
            } else {
                g.list_element_types@[n]
            },
    )
}

impl CodeGenerator {
    /// Seed one global's type.
    #[verifier::spinoff_prover]
    #[verifier::rlimit(100)]
    fn seed_one(&mut self, name: &String)
        requires
            old(self).global_var_types@.contains_key(name@),
            !old(self).variable_types@.contains_key(name@),
        ensures
            final(self).variable_types@ == old(self).variable_types@.insert(
                name@,
                declared_vartype_of(old(self).global_var_types@[name@]),
            ),
            final(self).declared_types@ == (if old(self).declared_types@.contains_key(name@) {
                old(self).declared_types@
            } else {
                old(self).declared_types@.insert(name@, old(self).global_var_types@[name@])
            }),
            final(self).list_element_types@ == (if old(self).global_list_element_types@.contains_key(name@) {
                old(self).list_element_types@.insert(name@, old(self).global_list_element_types@[name@])
            } else {
                old(self).list_element_types@
            }),
            final(self).forward_typed_globals@ == old(self).forward_typed_globals@.insert(name@),
            *final(self) == (CodeGenerator {
                variable_types: final(self).variable_types,
                declared_types: final(self).declared_types,
                list_element_types: final(self).list_element_types,
                forward_typed_globals: final(self).forward_typed_globals,
                ..*old(self)
            }),
    {
        let ty = match self.global_var_types.get(name.as_str()) {
            Some(t) => t.copy(),
            None => Type::Unknown,
        };
        self.variable_types.insert(name.clone(), declared_vartype(&ty));
        if !self.declared_types.contains_key(name.as_str()) {
            self.declared_types.insert(name.clone(), ty);
        }
        let elem = match self.global_list_element_types.get(name.as_str()) {
            Some(vt) => Some(*vt),
            None => None,
        };
        if let Some(vt) = elem {
            self.list_element_types.insert(name.clone(), vt);
        }
        self.forward_typed_globals.insert(name.clone());
    }

    /// Give every global its declared type before a function body is
    /// generated, so a read inside the body is typed by the declaration
    /// wherever it sits in the file. A name that already has a type keeps
    /// it, so a name the function binds itself still shadows the global.
    pub fn seed_global_var_types(&mut self)
        ensures
            final(self).variable_types@ == seeded_types(*old(self), |n: Seq<char>| true),
            final(self).declared_types@ == seeded_declared(*old(self), |n: Seq<char>| true),
            final(self).list_element_types@ == seeded_elements(*old(self), |n: Seq<char>| true),
            final(self).forward_typed_globals@ == old(self).forward_typed_globals@.union(
                Set::new(|n: Seq<char>| seeded(*old(self), n)),
            ),
            *final(self) == (CodeGenerator {
                variable_types: final(self).variable_types,
                declared_types: final(self).declared_types,
                list_element_types: final(self).list_element_types,
                forward_typed_globals: final(self).forward_typed_globals,
                ..*old(self)
            }),
    {
        let ghost start = *self;
        let names = self.global_var_types.keys();
        let ghost keys = crate::names::views_of(names@);
        let mut i: usize = 0;
        while i < names.len()
            invariant
                i <= names@.len(),
                keys == crate::names::views_of(names@),
                keys.no_duplicates(),
                forall|k: Seq<char>| start.global_var_types@.contains_key(k) <==> keys.contains(k),
                self.variable_types@ == seeded_types(start, |n: Seq<char>| keys.take(i as int).contains(n)),
                self.declared_types@ == seeded_declared(start, |n: Seq<char>| keys.take(i as int).contains(n)),
                self.list_element_types@ == seeded_elements(start, |n: Seq<char>| keys.take(i as int).contains(n)),
                self.forward_typed_globals@ == start.forward_typed_globals@.union(
                    Set::new(|n: Seq<char>| seeded(start, n) && keys.take(i as int).contains(n)),
                ),
                *self == (CodeGenerator {
                    variable_types: self.variable_types,
                    declared_types: self.declared_types,
                    list_element_types: self.list_element_types,
                    forward_typed_globals: self.forward_typed_globals,
                    ..start
                }),
            decreases names@.len() - i,
        {
            let name = &names[i];
            let ghost k = keys[i as int];
            proof {
                assert(name@ == k);
                let prev = keys.take(i as int);
                let next = keys.take(i + 1);
                assert(!prev.contains(k)) by {
                    if prev.contains(k) {
                        let j = choose|j: int| 0 <= j < prev.len() && #[trigger] prev[j] == k;
                        assert(keys[j] == keys[i as int]);
                    }
                }
                assert forall|n: Seq<char>| next.contains(n) <==> (prev.contains(n) || n == k) by {
                    if next.contains(n) {
                        let j = choose|j: int| 0 <= j < next.len() && #[trigger] next[j] == n;
                        if j < i {
                            assert(prev[j] == n);
                        }
                    }
                    if prev.contains(n) {
                        let j = choose|j: int| 0 <= j < prev.len() && #[trigger] prev[j] == n;
                        assert(next[j] == n);
                    }
                    if n == k {
                        assert(next[i as int] == n);
                    }
                }
                assert(keys[i as int] == k);
                assert(keys.contains(k));
                assert(start.global_var_types@.contains_key(k));
            }
            proof {
                assert(!keys.take(i as int).contains(k));
                assert(start.variable_types@.contains_key(k) <==> self.variable_types@.contains_key(k));
            }
            if !self.variable_types.contains_key(name.as_str()) {
                self.seed_one(name);
            }
            proof {
                let done_next = |n: Seq<char>| keys.take(i + 1).contains(n);

                assert(self.variable_types@ =~= seeded_types(start, done_next));
                assert(self.declared_types@ =~= seeded_declared(start, done_next));
                assert(self.list_element_types@ =~= seeded_elements(start, done_next));
                assert(self.forward_typed_globals@ =~= start.forward_typed_globals@.union(
                    Set::new(|n: Seq<char>| seeded(start, n) && keys.take(i + 1).contains(n)),
                ));
            }
            i = i + 1;
        }
        proof {
            assert(keys.take(names@.len() as int) =~= keys);
            let all = |n: Seq<char>| true;
            assert(self.variable_types@ =~= seeded_types(start, all));
            assert(self.declared_types@ =~= seeded_declared(start, all));
            assert(self.list_element_types@ =~= seeded_elements(start, all));
            assert(self.forward_typed_globals@ =~= start.forward_typed_globals@.union(
                Set::new(|n: Seq<char>| seeded(start, n)),
            ));
        }
    }
}

/// The names of the flags declared among `stmts`, in order.
pub open spec fn flag_names(stmts: Seq<Statement>) -> Seq<Seq<char>>
    decreases stmts.len(),
{
    if stmts.len() == 0 {
        Seq::empty()
    } else {
        flag_names(stmts.drop_last()) + match stmts.last() {
            Statement::FlagSchemaDecl { name, .. } => seq![name@],
            _ => Seq::empty(),
        }
    }
}

/// The global labels, the label count and the bss lines after each of
/// `names` in turn gets a label of its own, unless it has one.
pub open spec fn labelled(
    labels: Map<Seq<char>, Seq<char>>,
    counter: u64,
    bss: Seq<Seq<char>>,
    names: Seq<Seq<char>>,
) -> (Map<Seq<char>, Seq<char>>, u64, Seq<Seq<char>>)
    decreases names.len(),
{
    if names.len() == 0 {
        (labels, counter, bss)
    } else {
        let (l, c, b) = labelled(labels, counter, bss, names.drop_last());
        let n = names.last();
        if l.contains_key(n) {
            (l, c, b)
        } else {
            (l.insert(n, global_label(c)), next_count(c), b.push("    "@ + global_label(c) + ": resq 1"@))
        }
    }
}

/// The global labels, the label count and the bss lines of `g`.
pub open spec fn label_state(g: CodeGenerator) -> (Map<Seq<char>, Seq<char>>, u64, Seq<Seq<char>>) {
    (g.global_var_labels@.map_values(|l: String| l@), g.global_var_counter, lines_view(g.bss_section@))
}

/// The label state after `names` get labels, from that of `g`.
pub open spec fn labelled_from(g: CodeGenerator, names: Seq<Seq<char>>) -> (
    Map<Seq<char>, Seq<char>>,
    u64,
    Seq<Seq<char>>,
) {
    labelled(label_state(g).0, label_state(g).1, label_state(g).2, names)
}

impl CodeGenerator {
    /// Give `name` a label of its own, as one step of [`labelled`].
    fn label_step(&mut self, name: &str, Ghost(start): Ghost<CodeGenerator>, Ghost(done): Ghost<Seq<Seq<char>>>)
        requires
            label_state(*old(self)) == labelled_from(start, done),
        ensures
            label_state(*final(self)) == labelled_from(start, done.push(name@)),
            *final(self) == (CodeGenerator {
                global_var_labels: final(self).global_var_labels,
                global_var_counter: final(self).global_var_counter,
                bss_section: final(self).bss_section,
                ..*old(self)
            }),
    {
        self.ensure_global_var_label(name);
        proof {
            assert(done.push(name@).drop_last() =~= done);
            let old_labels = old(self).global_var_labels@.map_values(|l: String| l@);
            assert(old_labels.contains_key(name@) == old(self).global_var_labels@.contains_key(name@));
            if !old(self).global_var_labels@.contains_key(name@) {
                assert(self.global_var_labels@.map_values(|l: String| l@) =~= old_labels.insert(
                    name@,
                    global_label(old(self).global_var_counter),
                ));
            }
        }
    }

    /// Give every definite top-level name a global label, in dictionary
    /// order so the numbering does not depend on the walk, then every
    /// flag's name: a function reaches each of them through its label.
    pub fn collect_global_var_labels(&mut self, stmts: &Vec<Statement>)
        ensures
            exists|q: Seq<Seq<char>>|
                strictly_sorted(q) && q.to_set() == block_definite(stmts@) && label_state(*final(self))
                    == labelled_from(*old(self), q + flag_names(stmts@)),
            *final(self) == (CodeGenerator {
                global_var_labels: final(self).global_var_labels,
                global_var_counter: final(self).global_var_counter,
                bss_section: final(self).bss_section,
                ..*old(self)
            }),
    {
        let ghost start = *self;
        let (kinds, conflicted) = collect_definite_decls(stmts);
        let mut all = kinds.keys();
        let mut extra = conflicted.to_vec();
        let ghost first = all@;
        let ghost second = extra@;
        assert(forall|k: Seq<char>| kinds@.contains_key(k) <==> views_of(first).contains(k));
        assert(forall|k: Seq<char>| conflicted@.contains(k) <==> views_of(second).contains(k));
        all.append(&mut extra);
        proof {
            assert(all@ =~= first + second);
            assert(views_of(all@) =~= views_of(first) + views_of(second));
            let bd = block_definite(stmts@);
            assert(bd == kinds@.dom().union(conflicted@));
            assert forall|k: Seq<char>| bd.contains(k) <==> views_of(all@).contains(k) by {
                if views_of(all@).contains(k) {
                    let j = choose|j: int| 0 <= j < views_of(all@).len() && #[trigger] views_of(all@)[j] == k;
                    if j < views_of(first).len() {
                        assert(views_of(first)[j] == k);
                        assert(views_of(first).contains(k));
                        assert(kinds@.dom().contains(k));
                    } else {
                        assert(views_of(second)[j - views_of(first).len()] == k);
                        assert(views_of(second).contains(k));
                        assert(conflicted@.contains(k));
                    }
                }
                if bd.contains(k) {
                    if kinds@.dom().contains(k) {
                        assert(views_of(first).contains(k));
                        let j = choose|j: int| 0 <= j < views_of(first).len() && #[trigger] views_of(first)[j] == k;
                        assert(views_of(all@)[j] == k);
                    } else {
                        assert(conflicted@.contains(k));
                        assert(views_of(second).contains(k));
                        let j = choose|j: int| 0 <= j < views_of(second).len() && #[trigger] views_of(second)[j] == k;
                        assert(views_of(all@)[views_of(first).len() + j] == k);
                    }
                }
            }
        }
        let names = sorted_names(&all);
        let ghost q = views_of(names@);
        proof {
            assert(q.to_set() =~= block_definite(stmts@));
            assert(q.take(0) =~= Seq::<Seq<char>>::empty());
        }
        let mut i: usize = 0;
        while i < names.len()
            invariant
                i <= names@.len(),
                q == views_of(names@),
                label_state(*self) == labelled_from(start, q.take(i as int)),
                *self == (CodeGenerator {
                    global_var_labels: self.global_var_labels,
                    global_var_counter: self.global_var_counter,
                    bss_section: self.bss_section,
                    ..start
                }),
            decreases names@.len() - i,
        {
            self.label_step(names[i].as_str(), Ghost(start), Ghost(q.take(i as int)));
            proof {
                assert(q.take(i as int).push(names@[i as int]@) =~= q.take(i + 1));
            }
            i = i + 1;
        }
        proof {
            assert(q.take(names@.len() as int) =~= q);
            assert(q + flag_names(stmts@.take(0)) =~= q);
        }
        let mut j: usize = 0;
        while j < stmts.len()
            invariant
                j <= stmts@.len(),
                label_state(*self) == labelled_from(start, q + flag_names(stmts@.take(j as int))),
                *self == (CodeGenerator {
                    global_var_labels: self.global_var_labels,
                    global_var_counter: self.global_var_counter,
                    bss_section: self.bss_section,
                    ..start
                }),
            decreases stmts@.len() - j,
        {
            proof {
                assert(stmts@.take(j + 1).drop_last() =~= stmts@.take(j as int));
                assert(stmts@.take(j + 1).last() == stmts@[j as int]);
            }
            if let Statement::FlagSchemaDecl { name, .. } = &stmts[j] {
                self.label_step(name.as_str(), Ghost(start), Ghost(q + flag_names(stmts@.take(j as int))));
                proof {
                    assert((q + flag_names(stmts@.take(j as int))).push(name@) =~= q + flag_names(stmts@.take(j + 1)));
                }
            } else {
                proof {
                    assert(q + flag_names(stmts@.take(j + 1)) =~= q + flag_names(stmts@.take(j as int)));
                }
            }
            j = j + 1;
        }
        proof {
            assert(stmts@.take(stmts@.len() as int) =~= stmts@);
        }
    }
}

} // verus!
