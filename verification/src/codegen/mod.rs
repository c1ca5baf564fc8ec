//! The code generator: lowers a checked program to x86-64 assembly text,
//! one line at a time.
use vstd::prelude::*;
use crate::ast::{ImportedFunction, LibBlock, Type, VarType};
use crate::names::{NameMap, NameSet};
use crate::text::{cat2, cat3, u64_text};
use std::collections::HashMap;

pub mod tags;
pub mod vars;
pub mod functions;
pub mod expr;
pub mod format;
pub mod lower;
pub mod cast;
pub mod choices;

verus! {

/// The runtime type tag of a number.
pub const TAG_INTEGER: u8 = 0;
/// The runtime type tag of a text.
pub const TAG_STRING: u8 = 1;
/// The runtime type tag of a float.
pub const TAG_FLOAT: u8 = 2;
/// The runtime type tag of a boolean.
pub const TAG_BOOLEAN: u8 = 3;
/// The runtime type tag of a list.
pub const TAG_LIST: u8 = 4;
/// The runtime type tag of a map.
pub const TAG_MAP: u8 = 5;
/// The runtime type tag of `nothing`.
pub const TAG_NOTHING: u8 = 6;

/// Bytes before a list's first element: capacity, length, element size.
pub const LIST_DATA_OFFSET: i64 = 24;
/// Bytes before a buffer's data: the buffer's own header.
pub const BUF_DATA_OFFSET: i64 = 24;

/// A constant a top-level name was declared with.
pub enum Constant {
    Text(String),
    Integer(i64),
    Boolean(bool),
}

/// Where a `value`'s runtime tag can be found right after it is generated.
pub enum RuntimeTagSource {
    /// A local's shadow tag slot, at this rbp offset.
    ShadowSlot(i64),
    /// A global's shadow tag byte, at this label.
    ShadowSlotGlobal(String),
    /// Already in r11.
    R11,
}

/// Where a `value` variable keeps its tag.
pub enum ShadowTagLoc {
    Local(i64),
    Global(String),
}

/// What the pre-scan can prove of a slot's tag.
#[derive(PartialEq, Eq, Structural, Clone, Copy, Debug)]
pub enum TagInfo {
    Known(u8),
    Unknowable,
}

/// The tag of a `treating` operand: fixed at emit time, or read at run time.
pub enum ClauseTag {
    Static(u8),
    Runtime(RuntimeTagSource),
}

/// Where a variable's storage is.
pub enum VarTarget {
    Local(i64),
    Global(String),
}

/// What a `{name}` format hole resolved to.
pub enum FormatPartValue {
    /// Its value is in rax, of this type if known.
    Loaded(Option<VarType>),
    /// A constant text, to be written as it is.
    Literal(String),
    /// Nothing by that name.
    Unknown,
}

/// The whole state of one code generation.
pub struct CodeGenerator {
    /// The code section, one line per entry.
    pub text: Vec<String>,
    /// The data section, one line per entry.
    pub data_section: Vec<String>,
    /// The bss section, one line per entry.
    pub bss_section: Vec<String>,
    pub string_counter: u64,
    pub float_counter: u64,
    pub label_counter: u64,
    /// Each local's rbp offset.
    pub variables: NameMap<i64>,
    pub stack_offset: i64,
    pub variable_types: NameMap<VarType>,
    pub declared_types: NameMap<Type>,
    pub list_element_types: NameMap<VarType>,
    pub global_var_labels: NameMap<String>,
    pub global_var_counter: u64,
    pub global_value_tag_labels: NameMap<String>,
    pub global_text_owned_labels: NameMap<String>,
    pub global_var_types: NameMap<Type>,
    pub global_list_element_types: NameMap<VarType>,
    pub forward_typed_globals: NameSet,
    pub global_constants: NameMap<Constant>,
    /// Each `value` local's shadow tag slot.
    pub mixed_tag_slots: NameMap<i64>,
    /// Lists the pre-scan proved heterogeneous.
    pub mixed_lists: NameSet,
    /// Scalars whose declared type the pre-scan could not prove they hold.
    pub unprovable_scalars: NameSet,
    pub function_return_types: NameMap<VarType>,
    pub function_param_types: NameMap<Vec<Type>>,
    pub function_return_full_types: NameMap<Type>,
    pub import_labels: NameMap<String>,
    pub imported_symbols: Vec<String>,
    pub imports: Vec<ImportedFunction>,
    pub shared_lib_mode: bool,
    pub current_library: Option<(String, String)>,
    pub exported_functions: Vec<String>,
    pub library_blocks: Vec<LibBlock>,
    pub target_arch: String,
    pub in_function_codegen: bool,
    /// For a `list` or `map` parameter, the slot holding the address of the
    /// caller's storage for it.
    pub collection_backing_slots: NameMap<i64>,
    /// For a `buffer` parameter's slot, the slot holding the address of the
    /// cell where the buffer's owner keeps it.
    pub buffer_param_cells: HashMap<i64, i64>,
    pub empty_string_label: Option<String>,
    pub initialized_globals: NameSet,
    pub uses_floats: bool,
    pub uses_strings: bool,
    pub uses_ints: bool,
    pub uses_buffers: bool,
    pub uses_lists: bool,
    pub uses_maps: bool,
    pub uses_format: bool,
    pub uses_time: bool,
    pub uses_files: bool,
    pub uses_proc: bool,
    pub uses_funcs: bool,
    pub uses_heap: bool,
}

/// The characters of a list of lines.
pub open spec fn lines_view(v: Seq<String>) -> Seq<Seq<char>> {
    v.map_values(|s: String| s@)
}

/// An indented line of code.
pub open spec fn indented(s: Seq<char>) -> Seq<char> {
    "    "@ + s
}

/// The label `new_label` makes from a prefix and a count.
pub open spec fn label_text(prefix: Seq<char>, n: u64) -> Seq<char> {
    prefix + "_"@ + crate::text::dec_nat(n as nat)
}

/// The count after `n`, wrapping at the top.
pub open spec fn next_count(n: u64) -> u64 {
    if n < u64::MAX {
        (n + 1) as u64
    } else {
        0
    }
}

impl CodeGenerator {
    /// The code emitted so far, as character sequences.
    pub open spec fn code(&self) -> Seq<Seq<char>> {
        lines_view(self.text@)
    }

    /// A generator with nothing emitted.
    pub fn new() -> (r: CodeGenerator)
        ensures
            r.text@.len() == 0,
            r.data_section@.len() == 0,
            r.bss_section@.len() == 0,
            r.string_counter == 0,
            r.label_counter == 0,
            r.global_var_counter == 0,
            r.stack_offset == 0,
            !r.shared_lib_mode,
            !r.in_function_codegen,
            r.variables@ == Map::<Seq<char>, i64>::empty(),
            r.variable_types@ == Map::<Seq<char>, VarType>::empty(),
            r.global_var_labels@ == Map::<Seq<char>, String>::empty(),
            r.function_return_types@ == Map::<Seq<char>, VarType>::empty(),
            r.function_param_types@ == Map::<Seq<char>, Vec<Type>>::empty(),
            r.import_labels@ == Map::<Seq<char>, String>::empty(),
            r.current_library is None,
            r.empty_string_label is None,
    {
        CodeGenerator {
            text: Vec::new(),
            data_section: Vec::new(),
            bss_section: Vec::new(),
            string_counter: 0,
            float_counter: 0,
            label_counter: 0,
            variables: NameMap::new(),
            stack_offset: 0,
            variable_types: NameMap::new(),
            declared_types: NameMap::new(),
            list_element_types: NameMap::new(),
            global_var_labels: NameMap::new(),
            global_var_counter: 0,
            global_value_tag_labels: NameMap::new(),
            global_text_owned_labels: NameMap::new(),
            global_var_types: NameMap::new(),
            global_list_element_types: NameMap::new(),
            forward_typed_globals: NameSet::new(),
            global_constants: NameMap::new(),
            mixed_tag_slots: NameMap::new(),
            mixed_lists: NameSet::new(),
            unprovable_scalars: NameSet::new(),
            function_return_types: NameMap::new(),
            function_param_types: NameMap::new(),
            function_return_full_types: NameMap::new(),
            import_labels: NameMap::new(),
            imported_symbols: Vec::new(),
            imports: Vec::new(),
            shared_lib_mode: false,
            current_library: None,
            exported_functions: Vec::new(),
            library_blocks: Vec::new(),
            target_arch: String::from_str("x86_64"),
            in_function_codegen: false,
            collection_backing_slots: NameMap::new(),
            buffer_param_cells: HashMap::new(),
            empty_string_label: None,
            initialized_globals: NameSet::new(),
            uses_floats: false,
            uses_strings: false,
            uses_ints: false,
            uses_buffers: false,
            uses_lists: false,
            uses_maps: false,
            uses_format: false,
            uses_time: false,
            uses_files: false,
            uses_proc: false,
            uses_funcs: false,
            uses_heap: false,
        }
    }

    /// Emit one line as it is: a label, or a directive.
    pub fn emit(&mut self, line: String)
        ensures
            final(self).text@ == old(self).text@.push(line),
            *final(self) == (CodeGenerator { text: final(self).text, ..*old(self) }),
    {
        self.text.push(line);
    }

    /// Emit one indented instruction.
    pub fn emit_indent(&mut self, line: &str)
        ensures
            final(self).code() == old(self).code().push(indented(line@)),
            final(self).text@.len() == old(self).text@.len() + 1,
            *final(self) == (CodeGenerator { text: final(self).text, ..*old(self) }),
    {
        self.text.push(cat2("    ", line));
        assert(lines_view(self.text@) =~= lines_view(old(self).text@).push(indented(line@)));
    }

    /// A fresh label beginning with `prefix`.
    pub fn new_label(&mut self, prefix: &str) -> (r: String)
        ensures
            r@ == label_text(prefix@, old(self).label_counter),
            final(self).label_counter == next_count(old(self).label_counter),
            *final(self) == (CodeGenerator { label_counter: final(self).label_counter, ..*old(self) }),
    {
        let n = u64_text(self.label_counter);
        self.label_counter = if self.label_counter < u64::MAX {
            self.label_counter + 1
        } else {
            0
        };
        cat3(prefix, "_", n.as_str())
    }

    /// Emit `label:`.
    pub fn emit_label(&mut self, label: &str)
        ensures
            final(self).code() == old(self).code().push(label@ + ":"@),
            final(self).text@.len() == old(self).text@.len() + 1,
            *final(self) == (CodeGenerator { text: final(self).text, ..*old(self) }),
    {
        self.text.push(cat2(label, ":"));
        assert(lines_view(self.text@) =~= lines_view(old(self).text@).push(label@ + ":"@));
    }
}

/// Labels made from different counts are different.
pub proof fn law_fresh_labels_differ(prefix: Seq<char>, a: u64, b: u64)
    requires
        a != b,
    ensures
        label_text(prefix, a) != label_text(prefix, b),
{
    crate::text::lemma_dec_nat_injective(a as nat, b as nat);
    if label_text(prefix, a) == label_text(prefix, b) {
        let p = prefix + "_"@;
        assert(label_text(prefix, a) == p + crate::text::dec_nat(a as nat));
        assert((p + crate::text::dec_nat(a as nat)).skip(p.len() as int) == crate::text::dec_nat(a as nat));
        assert((p + crate::text::dec_nat(b as nat)).skip(p.len() as int) == crate::text::dec_nat(b as nat));
    }
}

} // verus!
