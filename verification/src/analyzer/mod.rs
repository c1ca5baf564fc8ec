//! The semantic analyzer: which names exist where, which statements are
//! legal where they stand, and which runtime pieces a program needs.
use vstd::prelude::*;
use crate::ast::{ImportedFunction, SourceLocation, Type};
use crate::names::{NameMap, NameSet};

pub mod scope;
pub mod statements;
pub mod decls;

verus! {

/// The runtime pieces a program needs linked in.
pub struct Dependencies {
    pub uses_io: bool,
    pub uses_heap: bool,
    pub uses_strings: bool,
    pub uses_args: bool,
    pub uses_funcs: bool,
}

impl Dependencies {
    pub fn new() -> (r: Dependencies)
        ensures
            !r.uses_io && !r.uses_heap && !r.uses_strings && !r.uses_args && !r.uses_funcs,
    {
        Dependencies {
            uses_io: false,
            uses_heap: false,
            uses_strings: false,
            uses_args: false,
            uses_funcs: false,
        }
    }
}

/// One diagnostic the analyzer reports.
pub struct CompileError {
    pub message: String,
    /// Where in the source the diagnostic points, when that is known.
    pub location: Option<SourceLocation>,
    pub hint: Option<String>,
    pub note_lines: Vec<String>,
    pub help_lines: Vec<String>,
}

impl CompileError {
    pub fn new(message: String) -> (r: CompileError)
        ensures
            r.message@ == message@,
            r.location is None,
            r.hint is None,
            r.note_lines@.len() == 0,
            r.help_lines@.len() == 0,
    {
        CompileError { message, location: None, hint: None, note_lines: Vec::new(), help_lines: Vec::new() }
    }
}

/// The messages of a list of diagnostics.
pub open spec fn messages(errors: Seq<CompileError>) -> Seq<Seq<char>> {
    errors.map_values(|e: CompileError| e.message@)
}

/// Names declared under a guard: `If ready, ...` declares into the `ready`
/// guard, and the names are available again wherever `ready` is re-proven.
pub struct GuardTable {
    table: NameMap<NameSet>,
}

impl View for GuardTable {
    type V = Map<Seq<char>, Set<Seq<char>>>;

    closed spec fn view(&self) -> Map<Seq<char>, Set<Seq<char>>> {
        Map::new(|g: Seq<char>| self.table@.contains_key(g), |g: Seq<char>| self.table@[g]@)
    }
}

/// The names a guard table holds under `g`, empty where it holds none.
pub open spec fn guarded_names(m: Map<Seq<char>, Set<Seq<char>>>, g: Seq<char>) -> Set<Seq<char>> {
    if m.contains_key(g) {
        m[g]
    } else {
        Set::empty()
    }
}

impl GuardTable {
    pub fn new() -> (r: GuardTable)
        ensures
            r@ == Map::<Seq<char>, Set<Seq<char>>>::empty(),
    {
        let r = GuardTable { table: NameMap::new() };
        assert(r@ =~= Map::<Seq<char>, Set<Seq<char>>>::empty());
        r
    }

    /// Whether `name` is declared under `guard`.
    pub fn holds(&self, guard: &str, name: &str) -> (r: bool)
        ensures
            r == guarded_names(self@, guard@).contains(name@),
    {
        match self.table.get(guard) {
            Some(set) => set.contains(name),
            None => false,
        }
    }

    /// A copy of the names under `guard` (empty if none).
    pub fn names_under(&self, guard: &str) -> (r: NameSet)
        ensures
            r@ == guarded_names(self@, guard@),
    {
        match self.table.get(guard) {
            Some(set) => set.copy(),
            None => NameSet::new(),
        }
    }

    /// Whether the table has an entry for `guard`.
    pub fn has_guard(&self, guard: &str) -> (r: bool)
        ensures
            r == self@.contains_key(guard@),
    {
        self.table.contains_key(guard)
    }

    /// Declare `name` under `guard`.
    pub fn add(&mut self, guard: &str, name: &str)
        ensures
            final(self)@ == old(self)@.insert(
                guard@,
                guarded_names(old(self)@, guard@).insert(name@),
            ),
    {
        let mut set = self.names_under(guard);
        set.insert(String::from_str(name));
        self.table.insert(String::from_str(guard), set);
        assert(final(self)@ =~= old(self)@.insert(
            guard@,
            guarded_names(old(self)@, guard@).insert(name@),
        ));
    }

    /// Add every name of `names` under `guard`.
    pub fn add_all(&mut self, guard: &str, names: &NameSet)
        ensures
            final(self)@ == old(self)@.insert(
                guard@,
                guarded_names(old(self)@, guard@).union(names@),
            ),
    {
        let mut set = self.names_under(guard);
        set.extend(names);
        self.table.insert(String::from_str(guard), set);
        assert(final(self)@ =~= old(self)@.insert(
            guard@,
            guarded_names(old(self)@, guard@).union(names@),
        ));
    }

    /// The guards, in the order they were first added.
    pub fn guards(&self) -> (r: Vec<String>)
        ensures
            forall|g: Seq<char>| self@.contains_key(g) <==> crate::names::views_of(r@).contains(g),
    {
        self.table.keys()
    }

    /// A table with the same guards and names.
    pub fn copy(&self) -> (r: GuardTable)
        ensures
            r@ == self@,
    {
        let gs = self.guards();
        let mut r = GuardTable::new();
        let mut i: usize = 0;
        while i < gs.len()
            invariant
                i <= gs@.len(),
                forall|g: Seq<char>|
                    self@.contains_key(g) <==> crate::names::views_of(gs@).contains(g),
                forall|g: Seq<char>|
                    #![trigger r@.contains_key(g)]
                    r@.contains_key(g) <==> (self@.contains_key(g)
                        && crate::names::views_of(gs@).take(i as int).contains(g)),
                forall|g: Seq<char>| #[trigger] r@.contains_key(g) ==> r@[g] == self@[g],
            decreases gs@.len() - i,
        {
            let ghost before = r@;
            let set = self.names_under(gs[i].as_str());
            assert(self@.contains_key(gs@[i as int]@)) by {
                assert(crate::names::views_of(gs@)[i as int] == gs@[i as int]@);
            }
            r.table.insert(gs[i].clone(), set);
            proof {
                crate::names::lemma_views_take_step(gs@, i as int);
            }
            assert forall|g: Seq<char>|
                #![trigger r@.contains_key(g)]
                r@.contains_key(g) <==> (self@.contains_key(g)
                    && crate::names::views_of(gs@).take(i + 1).contains(g)) by {
                assert(before.contains_key(g) <==> (self@.contains_key(g)
                    && crate::names::views_of(gs@).take(i as int).contains(g)));
            }
            assert forall|g: Seq<char>| #[trigger] r@.contains_key(g) implies r@[g] == self@[g] by {
                if g != gs@[i as int]@ {
                    assert(before.contains_key(g));
                    assert(r@[g] == before[g]);
                }
            }
            i = i + 1;
        }
        assert(crate::names::views_of(gs@).take(gs@.len() as int) == crate::names::views_of(gs@));
        assert(r@ =~= self@);
        r
    }
}

/// The names available on one control-flow path: those declared outright,
/// and those declared under a guard.
pub struct AnalysisEnv {
    pub always: NameSet,
    pub guarded: GuardTable,
}

impl AnalysisEnv {
    pub fn copy(&self) -> (r: AnalysisEnv)
        ensures
            r.always@ == self.always@,
            r.guarded@ == self.guarded@,
    {
        AnalysisEnv { always: self.always.copy(), guarded: self.guarded.copy() }
    }
}

/// A map from names to types, copied.
pub fn copy_type_map(m: &NameMap<Type>) -> (r: NameMap<Type>)
    ensures
        r@ == m@,
{
    let ks = m.keys();
    let mut r: NameMap<Type> = NameMap::new();
    let mut i: usize = 0;
    while i < ks.len()
        invariant
            i <= ks@.len(),
            forall|k: Seq<char>| m@.contains_key(k) <==> crate::names::views_of(ks@).contains(k),
            forall|k: Seq<char>| #![trigger r@.contains_key(k)]
                r@.contains_key(k) <==> crate::names::views_of(ks@).take(i as int).contains(k),
            forall|k: Seq<char>| #[trigger] r@.contains_key(k) ==> r@[k] == m@[k],
        decreases ks@.len() - i,
    {
        let ghost before = r@;
        assert(crate::names::views_of(ks@)[i as int] == ks@[i as int]@);
        match m.get(ks[i].as_str()) {
            Some(t) => {
                r.insert(ks[i].clone(), t.copy());
            },
            None => {},
        }
        proof {
            crate::names::lemma_views_take_step(ks@, i as int);
            assert forall|k: Seq<char>| #![trigger r@.contains_key(k)]
                r@.contains_key(k) <==> crate::names::views_of(ks@).take(i + 1).contains(k) by {
                assert(before.contains_key(k) <==> crate::names::views_of(ks@).take(i as int).contains(k));
            }
            assert forall|k: Seq<char>| #[trigger] r@.contains_key(k) implies r@[k] == m@[k] by {
                if k != ks@[i as int]@ {
                    assert(before.contains_key(k));
                }
            }
        }
        i = i + 1;
    }
    assert(crate::names::views_of(ks@).take(ks@.len() as int) == crate::names::views_of(ks@));
    assert(r@ =~= m@);
    r
}

/// The checked program's source, for diagnostics.
pub struct SourceFile {
    pub filename: String,
    pub content: String,
}

/// The analyzer's whole state across one walk of a program.
pub struct Analyzer {
    pub deps: Dependencies,
    pub variables: NameSet,
    pub functions: NameSet,
    /// Assembly symbol -> the function name that claimed it.
    pub mangled_functions: NameMap<String>,
    pub used_identifiers: NameSet,
    pub typo_candidates: NameSet,
    pub errors: Vec<CompileError>,
    pub source_file: Option<SourceFile>,
    pub guarded_scopes: GuardTable,
    pub active_guards: Vec<String>,
    pub in_function_scope: bool,
    pub block_depth: usize,
    pub global_variables: NameSet,
    pub conflicted_globals: NameSet,
    /// Declared flag name -> its declared value type.
    pub flag_variables: NameMap<Type>,
    pub buffer_variables: NameSet,
    pub list_variables: NameSet,
    pub map_variables: NameSet,
    pub file_variables: NameSet,
    pub timer_variables: NameSet,
    pub allocated_variables: NameSet,
    /// The scalar category each plain variable was declared or proven with.
    pub scalar_types: NameMap<Type>,
    pub function_param_counts: NameMap<usize>,
    pub function_signatures: NameMap<(Vec<(String, Type)>, Type)>,
    /// Names declared as the dynamic `value` type.
    pub value_typed_names: NameSet,
    pub loop_depth: usize,
    pub shared_mode: bool,
    pub current_library: Option<(String, String)>,
    /// The function a blank line closed early, its parameter names, and where.
    pub pending_blank_line_truncation: Option<(String, Vec<String>, SourceLocation)>,
    /// The function a body-level `Return` closed early, and where.
    pub pending_return_truncation: Option<(String, SourceLocation)>,
    pub imports: Vec<ImportedFunction>,
    pub warnings: Vec<String>,
    pub current_function_return_type: Option<Type>,
    pub current_function_name: Option<String>,
}

impl Analyzer {
    /// An analyzer that has seen nothing yet.
    pub fn new() -> (r: Analyzer)
        ensures
            r.variables@ == Set::<Seq<char>>::empty(),
            r.functions@ == Set::<Seq<char>>::empty(),
            r.errors@.len() == 0,
            r.warnings@.len() == 0,
            r.guarded_scopes@ == Map::<Seq<char>, Set<Seq<char>>>::empty(),
            r.active_guards@.len() == 0,
            !r.in_function_scope,
            r.block_depth == 0,
            r.loop_depth == 0,
            !r.shared_mode,
            r.source_file is None,
            r.imports@.len() == 0,
            r.current_library is None,
            r.global_variables@ == Set::<Seq<char>>::empty(),
            r.used_identifiers@ == Set::<Seq<char>>::empty(),
            r.typo_candidates@ == Set::<Seq<char>>::empty(),
            r.timer_variables@ == Set::<Seq<char>>::empty(),
            r.scalar_types@ == Map::<Seq<char>, Type>::empty(),
            r.current_function_name is None,
            r.current_function_return_type is None,
            r.pending_blank_line_truncation is None,
            r.pending_return_truncation is None,
            !r.deps.uses_io && !r.deps.uses_heap && !r.deps.uses_strings && !r.deps.uses_args
                && !r.deps.uses_funcs,
    {
        Analyzer {
            deps: Dependencies::new(),
            variables: NameSet::new(),
            functions: NameSet::new(),
            mangled_functions: NameMap::new(),
            used_identifiers: NameSet::new(),
            typo_candidates: NameSet::new(),
            errors: Vec::new(),
            source_file: None,
            guarded_scopes: GuardTable::new(),
            active_guards: Vec::new(),
            in_function_scope: false,
            block_depth: 0,
            global_variables: NameSet::new(),
            conflicted_globals: NameSet::new(),
            flag_variables: NameMap::new(),
            buffer_variables: NameSet::new(),
            list_variables: NameSet::new(),
            map_variables: NameSet::new(),
            file_variables: NameSet::new(),
            timer_variables: NameSet::new(),
            allocated_variables: NameSet::new(),
            scalar_types: NameMap::new(),
            function_param_counts: NameMap::new(),
            function_signatures: NameMap::new(),
            value_typed_names: NameSet::new(),
            loop_depth: 0,
            shared_mode: false,
            current_library: None,
            pending_blank_line_truncation: None,
            pending_return_truncation: None,
            imports: Vec::new(),
            warnings: Vec::new(),
            current_function_return_type: None,
            current_function_name: None,
        }
    }

    /// Attach the program's source text, for diagnostics.
    pub fn with_source(self, filename: &str, content: &str) -> (r: Analyzer)
        ensures
            r.source_file matches Some(f) && f.filename@ == filename@ && f.content@ == content@,
            r == (Analyzer { source_file: r.source_file, ..self }),
    {
        let mut s = self;
        s.source_file = Some(
            SourceFile { filename: String::from_str(filename), content: String::from_str(content) },
        );
        s
    }

    /// Analyze as a shared library (`--shared`) or as a program.
    pub fn with_shared_mode(self, enabled: bool) -> (r: Analyzer)
        ensures
            r == (Analyzer { shared_mode: enabled, ..self }),
    {
        let mut s = self;
        s.shared_mode = enabled;
        s
    }

    /// Register the functions the program imports from other libraries.
    pub fn with_imports(self, imports: Vec<ImportedFunction>) -> (r: Analyzer)
        ensures
            r == (Analyzer { imports: imports, ..self }),
    {
        let mut s = self;
        s.imports = imports;
        s
    }
}

} // verus!
