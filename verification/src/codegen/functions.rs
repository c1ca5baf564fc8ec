//! Function calls and signatures: which label a call reaches, and what the
//! callee takes and returns.
use vstd::prelude::*;
use crate::ast::{Expr, ImportedFunction, LibBlock, LibFunction, Program, Statement, Type, VarType};
use crate::codegen::vars::declared_vartype_of;
use crate::codegen::CodeGenerator;
use crate::symbols::{function_label_of, identity_view, mangled};
use crate::text::{cat3, i64_text, str_eq};
use crate::codegen::indented;
use crate::text::dec_int;
use crate::names::NameMap;

verus! {

broadcast use vstd::std_specs::hash::group_hash_axioms;

/// What a call site repairs after a call that took a `buffer` argument,
/// so the buffer's (possibly new) pointer reaches every holder of it.
pub enum BufferArgFixup {
    /// The cell handed over was the name's global mirror; carry the new
    /// pointer back into the frame slot the top level reads.
    MirrorToSlot { label: String, offset: i64 },
    /// The argument was itself a `buffer` parameter of this frame; refresh
    /// this frame's copy from the cell its owner keeps it in.
    OuterCellToSlot { cell: i64, offset: i64 },
}

/// The lines that carry one buffer's new pointer to its other holder.
pub open spec fn fixup_lines(f: BufferArgFixup) -> Seq<Seq<char>> {
    match f {
        BufferArgFixup::MirrorToSlot { label, offset } => seq![
            indented("mov rcx, [rel "@ + label@ + "]  ; the buffer may have moved"@),
            indented("mov [rbp-"@ + dec_int(offset as int) + "], rcx  ; the top level's copy follows it"@),
        ],
        BufferArgFixup::OuterCellToSlot { cell, offset } => seq![
            indented("mov rcx, [rbp-"@ + dec_int(cell as int) + "]  ; where this buffer's owner keeps it"@),
            indented("mov rcx, [rcx]  ; the buffer may have moved"@),
            indented("mov [rbp-"@ + dec_int(offset as int) + "], rcx  ; this frame's copy follows it"@),
        ],
    }
}

/// The lines of a list of fix-ups, in order.
pub open spec fn fixups_lines(fs: Seq<BufferArgFixup>) -> Seq<Seq<char>>
    decreases fs.len(),
{
    if fs.len() == 0 {
        Seq::empty()
    } else {
        fixups_lines(fs.drop_last()) + fixup_lines(fs.last())
    }
}

/// The view of an optional library identity held by value.
pub open spec fn library_view(lib: Option<(String, String)>) -> Option<(Seq<char>, Seq<char>)> {
    match lib {
        Some(p) => Some((p.0@, p.1@)),
        None => None,
    }
}

/// Whether a list of symbols holds `m`.
pub open spec fn declares_symbol(syms: Seq<String>, m: Seq<char>) -> bool {
    exists|k: int| 0 <= k < syms.len() && #[trigger] syms[k]@ == m
}

/// The library identity in force after `stmts`: the last one declared.
pub open spec fn library_after(stmts: Seq<Statement>) -> Option<(Seq<char>, Seq<char>)>
    decreases stmts.len(),
{
    if stmts.len() == 0 {
        None
    } else {
        match stmts.last() {
            Statement::LibraryDecl { name, version } => Some((name@, version@)),
            _ => library_after(stmts.drop_last()),
        }
    }
}

/// The parameter types of a parameter list, in order.
pub open spec fn param_types_of(params: Seq<(String, Type)>) -> Seq<Type> {
    params.map_values(|p: (String, Type)| p.1)
}

/// `b` is `a` with, at most, other signature tables.
pub open spec fn signatures_only(a: CodeGenerator, b: CodeGenerator) -> bool {
    b == (CodeGenerator {
        function_return_types: b.function_return_types,
        function_return_full_types: b.function_return_full_types,
        function_param_types: b.function_param_types,
        ..a
    })
}

/// The signature tables of `g`: return storage classes, whole return
/// types, and parameter types, by label.
pub open spec fn sig_tables(g: CodeGenerator) -> (
    Map<Seq<char>, VarType>,
    Map<Seq<char>, Type>,
    Map<Seq<char>, Seq<Type>>,
) {
    (g.function_return_types@, g.function_return_full_types@, g.function_param_types@.map_values(|v: Vec<Type>| v@))
}

/// Empty signature tables.
pub open spec fn no_signatures() -> (Map<Seq<char>, VarType>, Map<Seq<char>, Type>, Map<Seq<char>, Seq<Type>>) {
    (Map::empty(), Map::empty(), Map::empty())
}

/// The tables with one signature filed under `key`.
pub open spec fn file_signature(
    t: (Map<Seq<char>, VarType>, Map<Seq<char>, Type>, Map<Seq<char>, Seq<Type>>),
    key: Seq<char>,
    params: Seq<(String, Type)>,
    return_type: Type,
) -> (Map<Seq<char>, VarType>, Map<Seq<char>, Type>, Map<Seq<char>, Seq<Type>>) {
    (t.0.insert(key, declared_vartype_of(return_type)), t.1.insert(key, return_type), t.2.insert(key, param_types_of(params)))
}

/// The tables with each function definition among `defs` filed, in turn,
/// under its label in library `lib`.
pub open spec fn filed(
    t: (Map<Seq<char>, VarType>, Map<Seq<char>, Type>, Map<Seq<char>, Seq<Type>>),
    shared: bool,
    lib: Option<(Seq<char>, Seq<char>)>,
    defs: Seq<Statement>,
) -> (Map<Seq<char>, VarType>, Map<Seq<char>, Type>, Map<Seq<char>, Seq<Type>>)
    decreases defs.len(),
{
    if defs.len() == 0 {
        t
    } else {
        let t1 = filed(t, shared, lib, defs.drop_last());
        match defs.last() {
            Statement::FunctionDef { name, params, return_type, .. } => file_signature(
                t1,
                function_label_of(shared, lib, name@),
                params@,
                return_type,
            ),
            _ => t1,
        }
    }
}

/// Filing two lists of definitions is filing the first, then the second.
pub proof fn lemma_filed_concat(
    t: (Map<Seq<char>, VarType>, Map<Seq<char>, Type>, Map<Seq<char>, Seq<Type>>),
    shared: bool,
    lib: Option<(Seq<char>, Seq<char>)>,
    a: Seq<Statement>,
    b: Seq<Statement>,
)
    ensures
        filed(t, shared, lib, a + b) == filed(filed(t, shared, lib, a), shared, lib, b),
    decreases b.len(),
{
    if b.len() == 0 {
        assert(a + b =~= a);
    } else {
        assert((a + b).drop_last() =~= a + b.drop_last());
        assert((a + b).last() == b.last());
        lemma_filed_concat(t, shared, lib, a, b.drop_last());
    }
}

/// The function definitions inside a statement's blocks, at any depth, in
/// source order: those an open clause drew into its body, and those in a
/// function's own body.
pub open spec fn nested_defs(s: Statement) -> Seq<Statement>
    decreases s,
{
    match s {
        Statement::If { then_block, else_if_blocks, else_block, .. } => block_defs(then_block@) + else_if_defs(
            else_if_blocks@,
        ) + match else_block {
            Some(b) => block_defs(b@),
            None => Seq::empty(),
        },
        Statement::While { body, .. } => block_defs(body@),
        Statement::ForRange { body, .. } => block_defs(body@),
        Statement::ForEach { body, .. } => block_defs(body@),
        Statement::Repeat { body, .. } => block_defs(body@),
        Statement::OnError { actions } => block_defs(actions@),
        Statement::FunctionDef { body, .. } => block_defs(body@),
        _ => Seq::empty(),
    }
}

/// The function definitions in a block: each statement that is one, then
/// the ones inside it.
pub open spec fn block_defs(b: Seq<Statement>) -> Seq<Statement>
    decreases b,
{
    if b.len() == 0 {
        Seq::empty()
    } else {
        block_defs(b.drop_last()) + (if b.last() is FunctionDef {
            seq![b.last()]
        } else {
            Seq::empty()
        }) + nested_defs(b.last())
    }
}

/// The function definitions in the blocks of `otherwise if` clauses.
pub open spec fn else_if_defs(bs: Seq<(Expr, Vec<Statement>)>) -> Seq<Statement>
    decreases bs,
{
    if bs.len() == 0 {
        Seq::empty()
    } else {
        else_if_defs(bs.drop_last()) + block_defs(bs.last().1@)
    }
}

/// A statement itself, when it is a function definition.
pub open spec fn own_def(s: Statement) -> Seq<Statement> {
    if s is FunctionDef {
        seq![s]
    } else {
        Seq::empty()
    }
}

/// The tables after the signatures of a program's statements, top-level
/// definitions and the ones nested in each statement, each under the
/// library in force at its top-level statement.
pub open spec fn program_signatures(
    t: (Map<Seq<char>, VarType>, Map<Seq<char>, Type>, Map<Seq<char>, Seq<Type>>),
    shared: bool,
    stmts: Seq<Statement>,
) -> (Map<Seq<char>, VarType>, Map<Seq<char>, Type>, Map<Seq<char>, Seq<Type>>)
    decreases stmts.len(),
{
    if stmts.len() == 0 {
        t
    } else {
        filed(
            program_signatures(t, shared, stmts.drop_last()),
            shared,
            library_after(stmts),
            own_def(stmts.last()) + nested_defs(stmts.last()),
        )
    }
}

/// The tables with each import's signature filed under its symbol.
pub open spec fn import_signatures(
    t: (Map<Seq<char>, VarType>, Map<Seq<char>, Type>, Map<Seq<char>, Seq<Type>>),
    imports: Seq<ImportedFunction>,
) -> (Map<Seq<char>, VarType>, Map<Seq<char>, Type>, Map<Seq<char>, Seq<Type>>)
    decreases imports.len(),
{
    if imports.len() == 0 {
        t
    } else {
        let i = imports.last();
        file_signature(import_signatures(t, imports.drop_last()), i.mangled@, i.params@, i.return_type)
    }
}

/// What an exported function looks like in an interface file.
pub open spec fn func_view(f: LibFunction) -> (Seq<char>, Seq<(Seq<char>, Type)>, Type) {
    (f.name@, f.params@.map_values(|p: (String, Type)| (p.0@, p.1)), f.return_type)
}

/// What an identity's block looks like in an interface file.
pub open spec fn block_view(b: LibBlock) -> (Seq<char>, Seq<char>, Seq<(Seq<char>, Seq<(Seq<char>, Type)>, Type)>) {
    (b.lib@, b.version@, b.funcs@.map_values(|f: LibFunction| func_view(f)))
}

/// The index of the first block of identity `(l, v)`, or the number of
/// blocks when there is none.
pub open spec fn first_block(
    bs: Seq<(Seq<char>, Seq<char>, Seq<(Seq<char>, Seq<(Seq<char>, Type)>, Type)>)>,
    l: Seq<char>,
    v: Seq<char>,
) -> int
    decreases bs.len(),
{
    if bs.len() == 0 {
        0
    } else {
        let j = first_block(bs.drop_last(), l, v);
        if j < bs.len() - 1 {
            j
        } else if bs.last().0 == l && bs.last().1 == v {
            bs.len() - 1
        } else {
            bs.len() as int
        }
    }
}

/// The interface blocks of a shared library after `stmts`: one block per
/// identity in first-seen order, each with its top-level functions in
/// source order.
pub open spec fn blocks_after(stmts: Seq<Statement>) -> Seq<
    (Seq<char>, Seq<char>, Seq<(Seq<char>, Seq<(Seq<char>, Type)>, Type)>),
>
    decreases stmts.len(),
{
    if stmts.len() == 0 {
        Seq::empty()
    } else {
        let bs = blocks_after(stmts.drop_last());
        match stmts.last() {
            Statement::FunctionDef { name, params, return_type, .. } => match library_after(stmts.drop_last()) {
                Some((l, v)) => {
                    let f = (name@, params@.map_values(|p: (String, Type)| (p.0@, p.1)), return_type);
                    let i = first_block(bs, l, v);
                    if i < bs.len() {
                        bs.update(i, (bs[i].0, bs[i].1, bs[i].2.push(f)))
                    } else {
                        bs.push((l, v, seq![f]))
                    }
                },
                None => bs,
            },
            _ => bs,
        }
    }
}

/// The symbols of `imports`, each once, in the order first seen.
pub open spec fn import_symbols(imports: Seq<ImportedFunction>) -> Seq<Seq<char>>
    decreases imports.len(),
{
    if imports.len() == 0 {
        Seq::empty()
    } else {
        let d = import_symbols(imports.drop_last());
        if d.contains(imports.last().mangled@) {
            d
        } else {
            d.push(imports.last().mangled@)
        }
    }
}

/// Whether import `i` is the first one named `name`.
pub open spec fn first_import_named(imports: Seq<ImportedFunction>, name: Seq<char>, i: int) -> bool {
    &&& 0 <= i < imports.len()
    &&& imports[i].name@ == name
    &&& forall|j: int| 0 <= j < i ==> (#[trigger] imports[j]).name@ != name
}

impl CodeGenerator {

    /// The cell slot of the `buffer` parameter at `offset`, if it is one.
    pub fn buffer_param_cell(&self, offset: i64) -> (r: Option<i64>)
        ensures
            r == (if self.buffer_param_cells@.contains_key(offset) {
                Some(self.buffer_param_cells@[offset])
            } else {
                None
            }),
    {
        match self.buffer_param_cells.get(&offset) {
            Some(c) => Some(*c),
            None => None,
        }
    }

    /// After a call: carry each buffer argument's new pointer to its other
    /// holder. Only rcx is used, so the call's result in rax and a tag in
    /// r11 survive.
    pub fn emit_buffer_arg_fixups(&mut self, fixups: Vec<BufferArgFixup>)
        ensures
            final(self).code() == old(self).code() + fixups_lines(fixups@),
            final(self).only_text_grew(old(self)),
    {
        let ghost all = fixups@;
        let mut i: usize = 0;
        while i < fixups.len()
            invariant
                0 <= i <= fixups.len(),
                fixups@ == all,
                self.code() == old(self).code() + fixups_lines(all.subrange(0, i as int)),
                self.only_text_grew(old(self)),
            decreases fixups.len() - i,
        {
            let ghost before = self.code();
            match &fixups[i] {
                BufferArgFixup::MirrorToSlot { label, offset } => {
                    self.emit_indent(cat3("mov rcx, [rel ", label.as_str(), "]  ; the buffer may have moved").as_str());
                    let o = i64_text(*offset);
                    self.emit_indent(cat3("mov [rbp-", o.as_str(), "], rcx  ; the top level's copy follows it").as_str());
                },
                BufferArgFixup::OuterCellToSlot { cell, offset } => {
                    let c = i64_text(*cell);
                    self.emit_indent(cat3("mov rcx, [rbp-", c.as_str(), "]  ; where this buffer's owner keeps it").as_str());
                    self.emit_indent("mov rcx, [rcx]  ; the buffer may have moved");
                    let o = i64_text(*offset);
                    self.emit_indent(cat3("mov [rbp-", o.as_str(), "], rcx  ; this frame's copy follows it").as_str());
                },
            }
            proof {
                assert(all.subrange(0, i + 1).drop_last() =~= all.subrange(0, i as int));
                assert(self.code() =~= before + fixup_lines(all[i as int]));
            }
            i = i + 1;
        }
        proof {
            assert(all.subrange(0, all.len() as int) =~= all);
        }
    }
    /// The label a function defined in this compilation is emitted under.
    pub open spec fn local_label(&self, name: Seq<char>) -> Seq<char> {
        function_label_of(self.shared_lib_mode, library_view(self.current_library), name)
    }

    /// The label a call to `name` targets: a local definition, else an
    /// import, else the plain mangled name.
    pub open spec fn call_target(&self, name: Seq<char>) -> Seq<char> {
        if self.function_return_types@.contains_key(self.local_label(name)) {
            self.local_label(name)
        } else if self.import_labels@.contains_key(name) {
            self.import_labels@[name]@
        } else {
            mangled(name)
        }
    }

    /// The return type of `name` when it resolves to a function of no
    /// parameters.
    pub open spec fn zero_arg_return(&self, name: Seq<char>) -> Option<VarType> {
        let label = self.call_target(name);
        if self.function_param_types@.contains_key(label) && self.function_param_types@[label]@.len() == 0
            && self.function_return_types@.contains_key(label) {
            Some(self.function_return_types@[label])
        } else {
            None
        }
    }

    pub fn set_shared_lib_mode(&mut self, enabled: bool)
        ensures
            *final(self) == (CodeGenerator { shared_lib_mode: enabled, ..*old(self) }),
    {
        self.shared_lib_mode = enabled;
    }

    /// Register the functions the program imports: the first import of a
    /// name is the one a call to that name reaches, and each symbol is
    /// declared once, in the order first seen.
    pub fn set_imports(&mut self, imports: Vec<ImportedFunction>)
        ensures
            final(self).imports@ == imports@,
            forall|n: Seq<char>| #[trigger] final(self).import_labels@.contains_key(n) <==> exists|i: int|
                0 <= i < imports@.len() && imports@[i].name@ == n,
            forall|n: Seq<char>| #[trigger] final(self).import_labels@.contains_key(n) ==> exists|i: int|
                first_import_named(imports@, n, i) && final(self).import_labels@[n]@ == imports@[i].mangled@,
            forall|a: int, b: int| 0 <= a < b < final(self).imported_symbols@.len() ==> (#[trigger] final(self).imported_symbols@[a])@
                != (#[trigger] final(self).imported_symbols@[b])@,
            forall|i: int| 0 <= i < imports@.len() ==> declares_symbol(final(self).imported_symbols@, (#[trigger] imports@[i]).mangled@),
            crate::names::views_of(final(self).imported_symbols@) == import_symbols(imports@),
            *final(self) == (CodeGenerator {
                imports: final(self).imports,
                import_labels: final(self).import_labels,
                imported_symbols: final(self).imported_symbols,
                ..*old(self)
            }),
    {
        self.import_labels = import_label_map(&imports);
        self.imported_symbols = import_symbol_list(&imports);
        self.imports = imports;
    }

    /// The label a function defined in this compilation is emitted under.
    pub fn function_label(&self, name: &str) -> (r: String)
        ensures
            r@ == self.local_label(name@),
    {
        crate::symbols::make_function_label(self.shared_lib_mode, self.current_library.as_ref(), name)
    }

    /// The label a call to `name` targets: a local definition wins, then an
    /// import's symbol, then the plain mangled name.
    pub fn resolved_call_label(&self, name: &str) -> (r: String)
        ensures
            r@ == self.call_target(name@),
    {
        let local = self.function_label(name);
        if self.function_return_types.contains_key(local.as_str()) {
            return local;
        }
        if let Some(mangled) = self.import_labels.get(name) {
            return mangled.clone();
        }
        crate::symbols::mangle_symbol(name)
    }

    /// Take this compilation's identity from its first `Library`
    /// declaration, wherever it stands.
    pub fn collect_library_identity(&mut self, program: &Program)
        ensures
            (exists|i: int| 0 <= i < program.statements@.len() && #[trigger] program.statements@[i] is LibraryDecl)
                ==> exists|i: int| 0 <= i < program.statements@.len() && (#[trigger] program.statements@[i] matches Statement::LibraryDecl { name, version }
                && final(self).current_library matches Some(p) && p.0@ == name@ && p.1@ == version@
                && forall|j: int| 0 <= j < i ==> !(#[trigger] program.statements@[j] is LibraryDecl)),
            !(exists|i: int| 0 <= i < program.statements@.len() && #[trigger] program.statements@[i] is LibraryDecl)
                ==> *final(self) == *old(self),
            *final(self) == (CodeGenerator { current_library: final(self).current_library, ..*old(self) }),
    {
        let mut i: usize = 0;
        while i < program.statements.len()
            invariant
                i <= program.statements@.len(),
                *self == *old(self),
                forall|j: int| 0 <= j < i ==> !(#[trigger] program.statements@[j] is LibraryDecl),
            decreases program.statements@.len() - i,
        {
            if let Statement::LibraryDecl { name, version } = &program.statements[i] {
                self.current_library = Some((name.clone(), version.clone()));
                return;
            }
            i = i + 1;
        }
    }

    /// The return type of `name` when it resolves to a function that takes
    /// no parameters: a bare name in expression position that is no
    /// variable is then a call.
    pub fn zero_arg_func_return_type(&self, name: &str) -> (r: Option<VarType>)
        ensures
            r == self.zero_arg_return(name@),
    {
        let label = self.resolved_call_label(name);
        match self.function_param_types.get(label.as_str()) {
            Some(params) => {
                if params.len() == 0 {
                    match self.function_return_types.get(label.as_str()) {
                        Some(t) => Some(*t),
                        None => None,
                    }
                } else {
                    None
                }
            },
            None => None,
        }
    }

    /// The call target of an expression that is a call: a written call, or
    /// a bare name that is no variable and names a function of no
    /// parameters.
    pub fn call_label_for_list_return(&self, val: &Expr) -> (r: Option<String>)
        ensures
            match *val {
                Expr::FunctionCall { name, .. } => r matches Some(l) && l@ == self.call_target(name@),
                Expr::Identifier(name) => if !self.variables@.contains_key(name@)
                    && !self.global_var_labels@.contains_key(name@) && self.zero_arg_return(name@) is Some {
                    r matches Some(l) && l@ == self.call_target(name@)
                } else {
                    r is None
                },
                _ => r is None,
            },
    {
        match val {
            Expr::FunctionCall { name, .. } => Some(self.resolved_call_label(name.as_str())),
            Expr::Identifier(name) => {
                if self.get_var(name.as_str()).is_none() && self.global_var_label(name.as_str()).is_none() {
                    match self.zero_arg_func_return_type(name.as_str()) {
                        Some(_) => Some(self.resolved_call_label(name.as_str())),
                        None => None,
                    }
                } else {
                    None
                }
            },
            _ => None,
        }
    }

    /// The labels a shared library exports, in emission order.
    pub fn exported_functions(&self) -> (r: &Vec<String>)
        ensures
            *r == self.exported_functions,
    {
        &self.exported_functions
    }

    /// The exported signatures of each library identity, in first-seen
    /// order.
    pub fn library_blocks(&self) -> (r: &Vec<LibBlock>)
        ensures
            *r == self.library_blocks,
    {
        &self.library_blocks
    }

    pub fn set_target_arch(&mut self, arch: &str)
        ensures
            final(self).target_arch@ == arch@,
            *final(self) == (CodeGenerator { target_arch: final(self).target_arch, ..*old(self) }),
    {
        self.target_arch = String::from_str(arch);
    }

    /// File one definition's signature under `key`: its return type, as a
    /// storage class and whole, and its parameter types.
    pub fn record_function_signature(&mut self, key: String, params: &Vec<(String, Type)>, return_type: &Type)
        ensures
            sig_tables(*final(self)) == file_signature(sig_tables(*old(self)), key@, params@, *return_type),
            signatures_only(*old(self), *final(self)),
    {
        let vt = crate::codegen::vars::declared_vartype(return_type);
        self.function_return_types.insert(key.clone(), vt);
        self.function_return_full_types.insert(key.clone(), return_type.copy());
        let types = param_types(params);
        let ghost before = self.function_param_types@;
        self.function_param_types.insert(key, types);
        proof {
            assert(self.function_param_types@.map_values(|v: Vec<Type>| v@) =~= before.map_values(
                |v: Vec<Type>| v@,
            ).insert(key@, param_types_of(params@)));
        }
    }

    /// Record every function's signature before any code is generated,
    /// keyed by the label it is emitted under (a definition nested in a
    /// block too, under the library in force at its top-level statement),
    /// then the imports' by their symbols; in a shared library, collect
    /// each identity's exported top-level signatures for its interface
    /// file.
    pub fn collect_function_signatures(&mut self, program: &Program)
        ensures
            sig_tables(*final(self)) == import_signatures(
                program_signatures(no_signatures(), old(self).shared_lib_mode, program.statements@),
                old(self).imports@,
            ),
            old(self).shared_lib_mode ==> final(self).library_blocks@.map_values(|b: LibBlock| block_view(b))
                == blocks_after(program.statements@),
            !old(self).shared_lib_mode ==> final(self).library_blocks@.len() == 0,
            *final(self) == (CodeGenerator {
                function_return_types: final(self).function_return_types,
                function_return_full_types: final(self).function_return_full_types,
                function_param_types: final(self).function_param_types,
                library_blocks: final(self).library_blocks,
                ..*old(self)
            }),
    {
        let ghost sh = self.shared_lib_mode;
        let mut t = SignatureTables { returns: NameMap::new(), full: NameMap::new(), params: NameMap::new() };
        let mut current_lib: Option<(String, String)> = None;
        let mut lib_blocks: Vec<LibBlock> = Vec::new();
        proof {
            assert(program.statements@.take(0) =~= Seq::<Statement>::empty());
            assert(t.tables() =~~= no_signatures());
            assert(lib_blocks@.map_values(|b: LibBlock| block_view(b)) =~= blocks_after(program.statements@.take(0)));
        }
        let mut i: usize = 0;
        while i < program.statements.len()
            invariant
                i <= program.statements@.len(),
                library_view(current_lib) == library_after(program.statements@.take(i as int)),
                t.tables() == program_signatures(no_signatures(), sh, program.statements@.take(i as int)),
                sh ==> lib_blocks@.map_values(|b: LibBlock| block_view(b)) == blocks_after(
                    program.statements@.take(i as int),
                ),
                !sh ==> lib_blocks@.len() == 0,
                sh == self.shared_lib_mode,
            decreases program.statements@.len() - i,
        {
            let ghost pre = program.statements@.take(i as int);
            let ghost s = program.statements@[i as int];
            proof {
                assert(program.statements@.take(i + 1).drop_last() =~= pre);
                assert(program.statements@.take(i + 1).last() == s);
            }
            if let Statement::LibraryDecl { name, version } = &program.statements[i] {
                current_lib = Some((name.clone(), version.clone()));
            }
            t.file_statement(self.shared_lib_mode, &program.statements[i], &current_lib);
            if let Statement::FunctionDef { name, params, return_type, .. } = &program.statements[i] {
                if self.shared_lib_mode {
                    proof {
                        assert(library_after(program.statements@.take(i + 1)) == library_after(pre));
                    }
                    self.add_to_block(&mut lib_blocks, &current_lib, name, params, return_type, Ghost(pre), Ghost(s));
                    proof {
                        assert(pre.push(s) =~= program.statements@.take(i + 1));
                    }
                }
            } else {
                proof {
                    assert(blocks_after(program.statements@.take(i + 1)) == blocks_after(pre));
                }
            }
            i = i + 1;
        }
        proof {
            assert(program.statements@.take(program.statements@.len() as int) =~= program.statements@);
        }
        t.file_imports(&self.imports);
        self.function_return_types = t.returns;
        self.function_return_full_types = t.full;
        self.function_param_types = t.params;
        self.library_blocks = lib_blocks;
    }

    /// The block of identity `(lib, ver)` among `blocks`: the first one, or
    /// the number of blocks when there is none.
    fn find_block(blocks: &Vec<LibBlock>, lib: &String, ver: &String) -> (r: usize)
        ensures
            r as int == first_block(blocks@.map_values(|b: LibBlock| block_view(b)), lib@, ver@),
    {
        let ghost bv = blocks@.map_values(|b: LibBlock| block_view(b));
        let mut idx: usize = blocks.len();
        let mut b: usize = 0;
        while b < blocks.len()
            invariant
                b <= blocks@.len(),
                bv == blocks@.map_values(|x: LibBlock| block_view(x)),
                idx < blocks@.len() ==> idx < b && idx as int == first_block(bv.take(b as int), lib@, ver@),
                idx == blocks@.len() ==> first_block(bv.take(b as int), lib@, ver@) == b,
                idx <= blocks@.len(),
            decreases blocks@.len() - b,
        {
            proof {
                assert(bv.take(b + 1).drop_last() =~= bv.take(b as int));
                assert(bv.take(b + 1).last() == block_view(blocks@[b as int]));
            }
            if idx == blocks.len() && str_eq(blocks[b].lib.as_str(), lib.as_str()) && str_eq(
                blocks[b].version.as_str(),
                ver.as_str(),
            ) {
                idx = b;
            }
            b = b + 1;
        }
        proof {
            assert(bv.take(blocks@.len() as int) =~= bv);
        }
        idx
    }

    /// In a shared library: add a top-level definition to its identity's
    /// interface block, opening the block if it is the identity's first.
    fn add_to_block(
        &self,
        lib_blocks: &mut Vec<LibBlock>,
        current_lib: &Option<(String, String)>,
        name: &String,
        params: &Vec<(String, Type)>,
        return_type: &Type,
        Ghost(pre): Ghost<Seq<Statement>>,
        Ghost(s): Ghost<Statement>,
    )
        requires
            old(lib_blocks)@.map_values(|b: LibBlock| block_view(b)) == blocks_after(pre),
            library_view(*current_lib) == library_after(pre),
            s matches Statement::FunctionDef { name: n, params: ps, return_type: rt, .. } && n == *name && ps
                == *params && rt == *return_type,
        ensures
            final(lib_blocks)@.map_values(|b: LibBlock| block_view(b)) == blocks_after(pre.push(s)),
    {
        proof {
            assert(pre.push(s).drop_last() =~= pre);
            assert(pre.push(s).last() == s);
        }
        if let Some((lib, ver)) = current_lib {
            let idx = Self::find_block(lib_blocks, lib, ver);
            let func = LibFunction { name: name.clone(), params: crate::ast::copy_params(params), return_type: return_type.copy() };
            let ghost fv = (name@, params@.map_values(|p: (String, Type)| (p.0@, p.1)), *return_type);
            proof {
                assert(func_view(func) == fv) by {
                    assert(func.params@.map_values(|p: (String, Type)| (p.0@, p.1)) =~= params@.map_values(
                        |p: (String, Type)| (p.0@, p.1),
                    ));
                }
            }
            let ghost bv = lib_blocks@.map_values(|b: LibBlock| block_view(b));
            if idx == lib_blocks.len() {
                let mut funcs: Vec<LibFunction> = Vec::new();
                funcs.push(func);
                proof {
                    assert(funcs@.map_values(|f: LibFunction| func_view(f)) =~= seq![fv]);
                }
                lib_blocks.push(LibBlock { lib: lib.clone(), version: ver.clone(), funcs });
                proof {
                    assert(lib_blocks@.map_values(|b: LibBlock| block_view(b)) =~= bv.push((lib@, ver@, seq![fv])));
                }
            } else {
                let mut block = lib_blocks.remove(idx);
                let ghost old_block = block_view(block);
                block.funcs.push(func);
                proof {
                    assert(block_view(block) == (old_block.0, old_block.1, old_block.2.push(fv))) by {
                        assert(block.funcs@.map_values(|f: LibFunction| func_view(f)) =~= old_block.2.push(fv));
                    }
                }
                lib_blocks.insert(idx, block);
                proof {
                    assert(lib_blocks@.map_values(|b: LibBlock| block_view(b)) =~= bv.update(
                        idx as int,
                        (bv[idx as int].0, bv[idx as int].1, bv[idx as int].2.push(fv)),
                    ));
                }
            }
        }
    }
}


/// The label each imported name reaches: the symbol of its first import.
fn import_label_map(imports: &Vec<ImportedFunction>) -> (r: NameMap<String>)
    ensures
        forall|n: Seq<char>| #[trigger] r@.contains_key(n) <==> exists|i: int|
            0 <= i < imports@.len() && imports@[i].name@ == n,
        forall|n: Seq<char>| #[trigger] r@.contains_key(n) ==> exists|i: int|
            first_import_named(imports@, n, i) && r@[n]@ == imports@[i].mangled@,
{
    let mut labels: NameMap<String> = NameMap::new();
    let mut i: usize = 0;
    while i < imports.len()
        invariant
            i <= imports@.len(),
            forall|n: Seq<char>| #[trigger] labels@.contains_key(n) <==> exists|j: int|
                0 <= j < i && imports@[j].name@ == n,
            forall|n: Seq<char>| #[trigger] labels@.contains_key(n) ==> exists|j: int|
                first_import_named(imports@, n, j) && j < i && labels@[n]@ == imports@[j].mangled@,
        decreases imports@.len() - i,
    {
        let imp = &imports[i];
        if !labels.contains_key(imp.name.as_str()) {
            proof {
                assert forall|j: int| 0 <= j < i implies (#[trigger] imports@[j]).name@ != imp.name@ by {
                    if imports@[j].name@ == imp.name@ {
                        assert(labels@.contains_key(imports@[j].name@));
                    }
                }
                assert(first_import_named(imports@, imp.name@, i as int));
            }
            labels.insert(imp.name.clone(), imp.mangled.clone());
        }
        i = i + 1;
    }
    labels
}

/// The symbols of the imports, each once, in the order first seen.
fn import_symbol_list(imports: &Vec<ImportedFunction>) -> (r: Vec<String>)
    ensures
        forall|a: int, b: int| 0 <= a < b < r@.len() ==> (#[trigger] r@[a])@ != (#[trigger] r@[b])@,
        forall|i: int| 0 <= i < imports@.len() ==> declares_symbol(r@, (#[trigger] imports@[i]).mangled@),
        crate::names::views_of(r@) == import_symbols(imports@),
{
    let mut syms: Vec<String> = Vec::new();
    proof {
        assert(crate::names::views_of(syms@) =~= import_symbols(imports@.take(0)));
    }
    let mut i: usize = 0;
    while i < imports.len()
        invariant
            i <= imports@.len(),
            forall|a: int, b: int| 0 <= a < b < syms@.len() ==> (#[trigger] syms@[a])@ != (#[trigger] syms@[b])@,
            forall|j: int| 0 <= j < i ==> declares_symbol(syms@, (#[trigger] imports@[j]).mangled@),
            crate::names::views_of(syms@) == import_symbols(imports@.take(i as int)),
        decreases imports@.len() - i,
    {
        let imp = &imports[i];
        proof {
            assert(imports@.take(i + 1).drop_last() =~= imports@.take(i as int));
            assert(imports@.take(i + 1).last() == *imp);
        }
        let mut present = false;
        let mut k: usize = 0;
        while k < syms.len()
            invariant
                k <= syms@.len(),
                present == exists|m: int| 0 <= m < k && #[trigger] syms@[m]@ == imp.mangled@,
            decreases syms@.len() - k,
        {
            if str_eq(syms[k].as_str(), imp.mangled.as_str()) {
                present = true;
            }
            k = k + 1;
        }
        let ghost before = syms@;
        proof {
            if present {
                let m = choose|m: int| 0 <= m < before.len() && #[trigger] before[m]@ == imp.mangled@;
                assert(crate::names::views_of(before)[m] == imp.mangled@);
            } else {
                assert forall|m: int| 0 <= m < before.len() implies crate::names::views_of(before)[m] != imp.mangled@ by {
                    assert(crate::names::views_of(before)[m] == before[m]@);
                }
            }
        }
        if !present {
            syms.push(imp.mangled.clone());
            assert(syms@[syms@.len() - 1]@ == imp.mangled@);
            assert(crate::names::views_of(syms@) =~= crate::names::views_of(before).push(imp.mangled@));
        }
        proof {
            assert forall|j: int| 0 <= j < i + 1 implies declares_symbol(syms@, (#[trigger] imports@[j]).mangled@) by {
                if j < i {
                    assert(declares_symbol(before, imports@[j].mangled@));
                    let k = choose|k: int| 0 <= k < before.len() && #[trigger] before[k]@ == imports@[j].mangled@;
                    assert(syms@[k] == before[k]);
                } else if present {
                    let m = choose|m: int| 0 <= m < before.len() && #[trigger] before[m]@ == imp.mangled@;
                    assert(syms@[m] == before[m]);
                } else {
                    let k = syms@.len() - 1;
                    assert(syms@[k]@ == imports@[j].mangled@);
                }
            }
        }
        i = i + 1;
    }
    proof {
        assert(imports@.take(imports@.len() as int) =~= imports@);
    }
    syms
}

/// The signature tables while they are collected.
struct SignatureTables {
    returns: NameMap<VarType>,
    full: NameMap<Type>,
    params: NameMap<Vec<Type>>,
}

impl SignatureTables {
    spec fn tables(&self) -> (Map<Seq<char>, VarType>, Map<Seq<char>, Type>, Map<Seq<char>, Seq<Type>>) {
        (self.returns@, self.full@, self.params@.map_values(|v: Vec<Type>| v@))
    }

    /// File the definitions nested in `s`'s blocks, under `lib`.
    fn file_nested(&mut self, shared: bool, s: &Statement, lib: &Option<(String, String)>)
        ensures
            final(self).tables() == filed(
                old(self).tables(),
                shared,
                library_view(*lib),
                nested_defs(*s),
            ),
        decreases s, 0int,
    {
        let ghost t0 = self.tables();
        let ghost lv = library_view(*lib);
        match s {
            Statement::If { then_block, else_if_blocks, else_block, .. } => {
                self.file_block(shared, then_block, lib);
                self.file_else_ifs(shared, else_if_blocks, lib);
                proof {
                    lemma_filed_concat(t0, shared, lv, block_defs(then_block@), else_if_defs(else_if_blocks@));
                }
                match else_block {
                    Some(b) => {
                        self.file_block(shared, b, lib);
                        proof {
                            lemma_filed_concat(
                                t0,
                                shared,
                                lv,
                                block_defs(then_block@) + else_if_defs(else_if_blocks@),
                                block_defs(b@),
                            );
                        }
                    },
                    None => {
                        proof {
                            assert(block_defs(then_block@) + else_if_defs(else_if_blocks@) + Seq::<Statement>::empty()
                                =~= block_defs(then_block@) + else_if_defs(else_if_blocks@));
                        }
                    },
                }
            },
            Statement::While { body, .. } | Statement::ForRange { body, .. } | Statement::ForEach { body, .. }
            | Statement::Repeat { body, .. } | Statement::FunctionDef { body, .. } => {
                self.file_block(shared, body, lib);
            },
            Statement::OnError { actions } => {
                self.file_block(shared, actions, lib);
            },
            _ => {
                proof {
                    assert(filed(t0, shared, lv, Seq::<Statement>::empty()) == t0);
                }
            },
        }
    }

    /// File the definitions in the blocks of `otherwise if` clauses, under
    /// `lib`.
    fn file_else_ifs(&mut self, shared: bool, bs: &Vec<(Expr, Vec<Statement>)>, lib: &Option<(String, String)>)
        ensures
            final(self).tables() == filed(
                old(self).tables(),
                shared,
                library_view(*lib),
                else_if_defs(bs@),
            ),
        decreases bs@, 3int,
    {
        let ghost t0 = self.tables();
        let ghost lv = library_view(*lib);
        proof {
            assert(bs@.take(0) =~= Seq::<(Expr, Vec<Statement>)>::empty());
        }
        let mut j: usize = 0;
        while j < bs.len()
            invariant
                j <= bs@.len(),
                lv == library_view(*lib),
                self.tables() == filed(t0, shared, lv, else_if_defs(bs@.take(j as int))),
            decreases bs@.len() - j,
        {
            proof {
                assert(decreases_to!(bs@ => bs@[j as int]));
                assert(decreases_to!(bs@[j as int] => bs@[j as int].1));
                assert(decreases_to!(bs@[j as int].1 => bs@[j as int].1@));
            }
            self.file_block(shared, &bs[j].1, lib);
            proof {
                let ghost pre = bs@.take(j as int);
                assert(bs@.take(j + 1).drop_last() =~= pre);
                assert(bs@.take(j + 1).last() == bs@[j as int]);
                lemma_filed_concat(t0, shared, lv, else_if_defs(pre), block_defs(bs@[j as int].1@));
            }
            j = j + 1;
        }
        proof {
            assert(bs@.take(bs@.len() as int) =~= bs@);
        }
    }

    /// File the definitions in a block, and those nested in its statements,
    /// under `lib`.
    fn file_block(&mut self, shared: bool, b: &Vec<Statement>, lib: &Option<(String, String)>)
        ensures
            final(self).tables() == filed(
                old(self).tables(),
                shared,
                library_view(*lib),
                block_defs(b@),
            ),
        decreases b@, 2int,
    {
        let ghost t0 = self.tables();
        let ghost lv = library_view(*lib);
        proof {
            assert(b@.take(0) =~= Seq::<Statement>::empty());
        }
        let mut i: usize = 0;
        while i < b.len()
            invariant
                i <= b@.len(),
                lv == library_view(*lib),
                self.tables() == filed(t0, shared, lv, block_defs(b@.take(i as int))),
            decreases b@.len() - i,
        {
            assert(decreases_to!(b@ => b@[i as int]));
            let ghost pre = b@.take(i as int);
            self.file_statement(shared, &b[i], lib);
            proof {
                let ghost si = b@[i as int];
                assert(b@.take(i + 1).drop_last() =~= pre);
                assert(b@.take(i + 1).last() == si);
                lemma_filed_concat(t0, shared, lv, block_defs(pre), own_def(si) + nested_defs(si));
                assert(block_defs(b@.take(i + 1)) =~= block_defs(pre) + (own_def(si) + nested_defs(si)));
            }
            i = i + 1;
        }
        proof {
            assert(b@.take(b@.len() as int) =~= b@);
        }
    }

    /// File a statement's own signature, when it is a function definition,
    /// then those nested in it, under `lib`.
    fn file_statement(&mut self, shared: bool, s: &Statement, lib: &Option<(String, String)>)
        ensures
            final(self).tables() == filed(
                old(self).tables(),
                shared,
                library_view(*lib),
                own_def(*s) + nested_defs(*s),
            ),
        decreases s, 1int,
    {
        let ghost t0 = self.tables();
        let ghost lv = library_view(*lib);
        proof {
            assert(filed(t0, shared, lv, Seq::<Statement>::empty()) == t0);
        }
        if let Statement::FunctionDef { name, params, return_type, .. } = s {
            let key = crate::symbols::make_function_label(shared, lib.as_ref(), name.as_str());
            self.file(key, params, return_type);
            proof {
                assert(own_def(*s) =~= seq![*s]);
                assert(seq![*s].drop_last() =~= Seq::<Statement>::empty());
            }
        }
        let ghost tm = self.tables();
        assert(filed(t0, shared, lv, own_def(*s)) == tm);
        self.file_nested(shared, s, lib);
        proof {
            lemma_filed_concat(t0, shared, lv, own_def(*s), nested_defs(*s));
        }
    }

    /// File the imports' signatures, in order, under their symbols.
    fn file_imports(&mut self, imports: &Vec<ImportedFunction>)
        ensures
            final(self).tables() == import_signatures(old(self).tables(), imports@),
    {
        let ghost t0 = self.tables();
        proof {
            assert(imports@.take(0) =~= Seq::<ImportedFunction>::empty());
        }
        let mut k: usize = 0;
        while k < imports.len()
            invariant
                k <= imports@.len(),
                self.tables() == import_signatures(t0, imports@.take(k as int)),
            decreases imports@.len() - k,
        {
            let imp = &imports[k];
            self.file(imp.mangled.clone(), &imp.params, &imp.return_type);
            proof {
                assert(imports@.take(k + 1).drop_last() =~= imports@.take(k as int));
                assert(imports@.take(k + 1).last() == *imp);
            }
            k = k + 1;
        }
        proof {
            assert(imports@.take(imports@.len() as int) =~= imports@);
        }
    }

    /// File one signature under `key`.
    fn file(&mut self, key: String, params: &Vec<(String, Type)>, return_type: &Type)
        ensures
            final(self).tables() == file_signature(old(self).tables(), key@, params@, *return_type),
    {
        let vt = crate::codegen::vars::declared_vartype(return_type);
        self.returns.insert(key.clone(), vt);
        self.full.insert(key.clone(), return_type.copy());
        let types = param_types(params);
        let ghost before = self.params@;
        self.params.insert(key, types);
        proof {
            assert(self.params@.map_values(|v: Vec<Type>| v@) =~= before.map_values(|v: Vec<Type>| v@).insert(
                key@,
                param_types_of(params@),
            ));
        }
    }
}

/// The parameter types of a parameter list, copied in order.
fn param_types(params: &Vec<(String, Type)>) -> (r: Vec<Type>)
    ensures
        r@ == param_types_of(params@),
{
    let mut types: Vec<Type> = Vec::new();
    let mut i: usize = 0;
    while i < params.len()
        invariant
            i <= params@.len(),
            types@ == param_types_of(params@.take(i as int)),
        decreases params@.len() - i,
    {
        types.push(params[i].1.copy());
        proof {
            assert(param_types_of(params@.take(i + 1)) =~= param_types_of(params@.take(i as int)).push(
                params@[i as int].1,
            ));
        }
        i = i + 1;
    }
    proof {
        assert(params@.take(params@.len() as int) =~= params@);
    }
    types
}


} // verus!
