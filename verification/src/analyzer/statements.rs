//! The statement walk: what each statement declares, requires and reports.
use vstd::prelude::*;
use crate::analyzer::scope::{
    non_collection_kind_of, always_on_every_path, block_terminates, env_views, guarded_on_any_path, stmt_terminates,
};
use crate::analyzer::{
    copy_type_map, guarded_names, messages, AnalysisEnv, Analyzer, CompileError, Dependencies, GuardTable,
};
use crate::ast::{Expr, FlagValueType, ImportedFunction, Program, SourceLocation, Statement, Type, UnaryOperator};
use crate::names::NameSet;
use crate::text::{cat2, cat3, cat4, cat5, i64_text, str_eq};

verus! {

/// The largest file descriptor an `Open ... at N` may name.
pub const FD_MAX: i64 = 2147483647;

/// The diagnostics grew only at the end.
pub open spec fn errors_kept(a: Seq<CompileError>, b: Seq<CompileError>) -> bool {
    a.len() <= b.len() && forall|i: int| 0 <= i < a.len() ==> b[i] == a[i]
}

/// A runtime piece once needed stays needed.
pub open spec fn deps_kept(a: Dependencies, b: Dependencies) -> bool {
    &&& a.uses_io ==> b.uses_io
    &&& a.uses_heap ==> b.uses_heap
    &&& a.uses_strings ==> b.uses_strings
    &&& a.uses_args ==> b.uses_args
    &&& a.uses_funcs ==> b.uses_funcs
}

/// Every name declared under a guard in `a` is declared under it in `b`.
pub open spec fn guards_kept(a: Map<Seq<char>, Set<Seq<char>>>, b: Map<Seq<char>, Set<Seq<char>>>) -> bool {
    forall|g: Seq<char>| #[trigger] guarded_names(a, g).subset_of(guarded_names(b, g))
}

/// `a` is a prefix of `b`.
pub open spec fn prefix_of(a: Seq<String>, b: Seq<String>) -> bool {
    a.len() <= b.len() && forall|i: int| 0 <= i < a.len() ==> b[i] == a[i]
}

/// What every statement keeps: no name becomes unavailable, no diagnostic
/// is withdrawn, no needed runtime piece is dropped, and the walk's
/// position (function scope, block and loop depth) is as it was.
pub open spec fn walk_keeps(a: Analyzer, b: Analyzer) -> bool {
    &&& a.variables@.subset_of(b.variables@)
    &&& guards_kept(a.guarded_scopes@, b.guarded_scopes@)
    &&& prefix_of(a.active_guards@, b.active_guards@)
    &&& b.in_function_scope == a.in_function_scope
    &&& b.block_depth == a.block_depth
    &&& b.loop_depth == a.loop_depth
    &&& b.global_variables@ == a.global_variables@
    &&& b.flag_variables@ == a.flag_variables@
    &&& b.conflicted_globals@ == a.conflicted_globals@
    &&& b.shared_mode == a.shared_mode
    &&& errors_kept(a.errors@, b.errors@)
    &&& deps_kept(a.deps, b.deps)
    &&& b.warnings == a.warnings
    &&& a.timer_variables@.subset_of(b.timer_variables@)
}

proof fn lemma_walk_keeps_trans(a: Analyzer, b: Analyzer, c: Analyzer)
    requires
        walk_keeps(a, b),
        walk_keeps(b, c),
    ensures
        walk_keeps(a, c),
{
    assert forall|g: Seq<char>| #[trigger] guarded_names(a.guarded_scopes@, g).subset_of(
        guarded_names(c.guarded_scopes@, g),
    ) by {
        assert(guarded_names(a.guarded_scopes@, g).subset_of(guarded_names(b.guarded_scopes@, g)));
        assert(guarded_names(b.guarded_scopes@, g).subset_of(guarded_names(c.guarded_scopes@, g)));
    }
}

/// The diagnostics a check of `name` as a statement's target adds: none
/// when it is available and of the right kind; else one refusal, naming
/// it unknown (or used before its declaration) or of the wrong kind.
pub open spec fn target_checked(
    a: Analyzer,
    b: Analyzer,
    name: Seq<char>,
    unknown: Seq<char>,
    wrong: Seq<char>,
    right_kind: bool,
) -> bool {
    &&& !a.available(name) ==> {
        &&& b.errors@.len() == a.errors@.len() + 1
        &&& b.errors@.last().message@ == if a.used_before_declaration(name) {
            crate::analyzer::scope::used_before_message(name)
        } else {
            unknown + name
        }
    }
    &&& a.available(name) && !right_kind ==> {
        &&& b.errors@.len() == a.errors@.len() + 1
        &&& b.errors@.last().message@ == wrong + name
    }
    &&& a.available(name) && right_kind ==> b.errors@ == a.errors@
}

/// The name an `Increment` or `Decrement` steps, and its keyword.
pub open spec fn step_target(s: Statement) -> Option<(Seq<char>, Seq<char>)> {
    match s {
        Statement::Increment { name } => Some((name@, "Increment"@)),
        Statement::Decrement { name } => Some((name@, "Decrement"@)),
        _ => None,
    }
}

/// Whether `name` holds something that is not a number: a buffer, list,
/// map, file, flag or timer.
pub open spec fn holds_no_number(a: Analyzer, name: Seq<char>) -> bool {
    a.buffer_variables@.contains(name) || a.list_variables@.contains(name) || a.map_variables@.contains(name)
        || a.file_variables@.contains(name) || a.flag_variables@.contains_key(name)
        || a.timer_variables@.contains(name)
}

/// The diagnostics a step of `name` adds: an unknown name is reported
/// (silently skipped when two declarations disagree on it), a name that
/// holds no number is refused, and a number is accepted.
pub open spec fn step_checked(a: Analyzer, b: Analyzer, name: Seq<char>, kw: Seq<char>) -> bool {
    &&& !a.available(name) && a.conflicted_globals@.contains(name) ==> b.errors@ == a.errors@
    &&& !a.available(name) && !a.conflicted_globals@.contains(name) ==> {
        &&& b.errors@.len() == a.errors@.len() + 1
        &&& b.errors@.last().message@ == if a.used_before_declaration(name) {
            crate::analyzer::scope::used_before_message(name)
        } else {
            "Unknown variable: "@ + name
        }
    }
    &&& a.available(name) && holds_no_number(a, name) ==> {
        &&& b.errors@.len() == a.errors@.len() + 1
        &&& b.errors@.last().message@ == kw + " requires a number variable: "@ + name
    }
    &&& a.available(name) && !holds_no_number(a, name) ==> b.errors@ == a.errors@
}

/// Whether a body holds nothing but `Break` and `Continue`.
pub open spec fn loop_controls_only(body: Seq<Statement>) -> bool {
    forall|i: int| 0 <= i < body.len() ==> (#[trigger] body[i] is Break || body[i] is Continue)
}

/// Whether a statement declares `n` outright, under no guard.
pub open spec fn declares_outright(s: Statement, n: Seq<char>) -> bool {
    ||| s matches Statement::TimerDecl { name } && name@ == n
    ||| s matches Statement::BufferDecl { name, .. } && name@ == n
    ||| s matches Statement::GetTime { into } && into@ == n
}

/// Whether a block declares `n` outright before anything in it ends every
/// path.
pub open spec fn block_declares(b: Seq<Statement>, n: Seq<char>) -> bool {
    exists|j: int|
        0 <= j < b.len() && #[trigger] declares_outright(b[j], n) && forall|k: int|
            0 <= k < j ==> !stmt_terminates(#[trigger] b[k])
}

/// Whether every branch of an `If` with an `otherwise` declares `n`
/// outright, the first branch going on to its end.
pub open spec fn branches_declare(
    then_b: Seq<Statement>,
    elifs: Seq<(Expr, Vec<Statement>)>,
    else_b: Seq<Statement>,
    n: Seq<char>,
) -> bool {
    &&& block_declares(then_b, n)
    &&& !block_terminates(then_b)
    &&& forall|i: int| 0 <= i < elifs.len() ==> block_declares(#[trigger] elifs[i].1@, n)
    &&& block_declares(else_b, n)
}

/// Whether `s` is an `If` with an `otherwise` whose every branch declares
/// `n` outright, the first going on to its end.
pub open spec fn if_declares(s: Statement, n: Seq<char>) -> bool {
    match s {
        Statement::If { then_block, else_if_blocks, else_block: Some(eb), .. } => branches_declare(
            then_block@,
            else_if_blocks@,
            eb@,
            n,
        ),
        _ => false,
    }
}

/// Whether a `parse flags.` comes before position `k`.
pub open spec fn parse_seen_before(stmts: Seq<Statement>, k: int) -> bool {
    exists|j: int| 0 <= j < k && #[trigger] stmts[j] is ParseFlags
}

/// The diagnostics of the flag pass over `stmts`, in order: each flag
/// declared after a `parse flags.`, and each `parse flags.` after the first.
pub open spec fn flag_diagnostics(stmts: Seq<Statement>) -> Seq<Seq<char>>
    decreases stmts.len(),
{
    if stmts.len() == 0 {
        Seq::empty()
    } else {
        let d = flag_diagnostics(stmts.drop_last());
        let seen = parse_seen_before(stmts, stmts.len() - 1);
        match stmts.last() {
            Statement::ParseFlags => if seen {
                d.push("Duplicate 'parse flags.' statement"@)
            } else {
                d
            },
            Statement::FlagSchemaDecl { .. } => if seen {
                d.push("Cannot declare new flags after 'parse flags.'"@)
            } else {
                d
            },
            _ => d,
        }
    }
}

/// Whether `a` begins with `p`.
pub open spec fn begins_with(a: Seq<Seq<char>>, p: Seq<Seq<char>>) -> bool {
    p.len() <= a.len() && a.subrange(0, p.len() as int) == p
}

/// Whether statement `k` defines a function that import `m` also exports
/// under the same name.
pub open spec fn shadows(stmts: Seq<Statement>, imports: Seq<ImportedFunction>, k: int, m: int) -> bool {
    &&& 0 <= k < stmts.len()
    &&& 0 <= m < imports.len()
    &&& stmts[k] matches Statement::FunctionDef { name, .. } && name@ == imports[m].name@
}

/// The warning that a local definition of `name` wins over the one library
/// `lib` at version `ver` exports.
pub open spec fn shadow_warning(name: Seq<char>, lib: Seq<char>, ver: Seq<char>) -> Seq<char> {
    "'"@ + name + "' is defined in this program and also exported by library \""@ + lib + "\" version \""@ + ver
        + "\"; the local definition wins — calls to '"@ + name + "' resolve to it, not to the library."@
}

/// The warning for import `m`'s name being defined locally too.
pub open spec fn import_shadow_warning(imports: Seq<ImportedFunction>, m: int) -> Seq<char> {
    shadow_warning(imports[m].name@, imports[m].lib@, imports[m].version@)
}

/// Whether `text` is the warning for some definition shadowing an import.
pub open spec fn is_shadow_warning(stmts: Seq<Statement>, imports: Seq<ImportedFunction>, text: Seq<char>) -> bool {
    exists|k: int, m: int| #[trigger] shadows(stmts, imports, k, m) && text == import_shadow_warning(imports, m)
}

/// Whether `texts`, from position `lo` on, hold `text`.
pub open spec fn holds_text(texts: Seq<String>, lo: int, text: Seq<char>) -> bool {
    exists|w: int| lo <= w < texts.len() && #[trigger] texts[w]@ == text
}

/// Whether a statement declares the timer `n`.
pub open spec fn declares_timer(s: Statement, n: Seq<char>) -> bool {
    s matches Statement::TimerDecl { name } && name@ == n
}

/// Whether a block declares the timer `n` before anything in it ends every
/// path.
pub open spec fn block_declares_timer(b: Seq<Statement>, n: Seq<char>) -> bool {
    exists|j: int|
        0 <= j < b.len() && #[trigger] declares_timer(b[j], n) && forall|k: int|
            0 <= k < j ==> !stmt_terminates(#[trigger] b[k])
}

/// Whether `s` is an `If` whose first branch declares the timer `n`.
pub open spec fn if_declares_timer(s: Statement, n: Seq<char>) -> bool {
    s matches Statement::If { then_block, .. } && block_declares_timer(then_block@, n)
}

/// A name available before a step that keeps the walk is available after.
pub proof fn law_availability_only_grows(a: Analyzer, b: Analyzer, name: Seq<char>)
    requires
        walk_keeps(a, b),
        a.available(name),
    ensures
        b.available(name),
{
    if !a.variables@.contains(name) {
        let i = choose|i: int|
            0 <= i < a.active_guards@.len() && #[trigger] guarded_names(
                a.guarded_scopes@,
                a.active_guards@[i]@,
            ).contains(name);
        assert(b.active_guards@[i] == a.active_guards@[i]);
        assert(guarded_names(a.guarded_scopes@, a.active_guards@[i]@).subset_of(
            guarded_names(b.guarded_scopes@, a.active_guards@[i]@),
        ));
        assert(guarded_names(b.guarded_scopes@, b.active_guards@[i]@).contains(name));
    }
}

proof fn lemma_every_path_superset(envs: Seq<(Set<Seq<char>>, Map<Seq<char>, Set<Seq<char>>>)>, s: Set<Seq<char>>)
    requires
        envs.len() > 0,
        forall|i: int| 0 <= i < envs.len() ==> s.subset_of(#[trigger] envs[i].0),
    ensures
        s.subset_of(always_on_every_path(envs)),
    decreases envs.len(),
{
    if envs.len() > 1 {
        lemma_every_path_superset(envs.drop_last(), s);
        assert(s.subset_of(envs[envs.len() - 1].0));
    } else {
        assert(s.subset_of(envs[0].0));
    }
}

proof fn lemma_every_path_within(envs: Seq<(Set<Seq<char>>, Map<Seq<char>, Set<Seq<char>>>)>, i: int)
    requires
        0 <= i < envs.len(),
    ensures
        always_on_every_path(envs).subset_of(envs[i].0),
    decreases envs.len(),
{
    if envs.len() > 1 {
        if i < envs.len() - 1 {
            lemma_every_path_within(envs.drop_last(), i);
            assert(envs.drop_last()[i] == envs[i]);
        }
    }
}

proof fn lemma_any_path_superset(
    envs: Seq<(Set<Seq<char>>, Map<Seq<char>, Set<Seq<char>>>)>,
    m: Map<Seq<char>, Set<Seq<char>>>,
    g: Seq<char>,
)
    requires
        envs.len() > 0,
        forall|i: int| 0 <= i < envs.len() ==> guards_kept(m, #[trigger] envs[i].1),
    ensures
        guarded_names(m, g).subset_of(guarded_on_any_path(envs, g)),
    decreases envs.len(),
{
    let last = envs[envs.len() - 1];
    assert(guards_kept(m, last.1));
    assert(guarded_names(m, g).subset_of(guarded_names(last.1, g)));
}

/// The statement kinds a shared library may hold at its top level.
pub open spec fn allowed_in_library(s: Statement) -> bool {
    s is FunctionDef || s is LibraryDecl || s is See || s is ThingDecl
}

/// A short name for a statement kind, for the shared-library diagnostic.
pub open spec fn statement_label(s: Statement) -> &'static str {
    match s {
        Statement::Print { .. } => "print statement",
        Statement::VarDecl { .. } => "variable declaration",
        Statement::Assignment { .. } => "assignment",
        Statement::If { .. } => "if statement",
        Statement::While { .. } => "while loop",
        Statement::ForRange { .. } | Statement::ForEach { .. } | Statement::Repeat { .. } => "loop",
        Statement::FunctionCall { .. } => "function call",
        Statement::Exit { .. } => "exit statement",
        Statement::OnError { .. } => "on error handler",
        Statement::FlagSchemaDecl { .. } | Statement::ParseFlags => "flag declaration",
        _ => "statement",
    }
}

/// The shared-library diagnostic for a top-level statement that would be
/// dropped.
pub open spec fn library_top_level_message(label: Seq<char>) -> Seq<char> {
    "Top-level "@ + label
        + " is not allowed in a shared library: only function definitions, 'Library', and 'see' may appear at the top level."@
}

/// The value of an integer literal, or of a negated one, when it has one.
pub open spec fn integer_literal_value(e: Expr) -> Option<i64> {
    match e {
        Expr::IntegerLit(v) => Some(v),
        Expr::UnaryOp { op: UnaryOperator::Negate, operand } => match *operand {
            Expr::IntegerLit(v) => if v == i64::MIN {
                None
            } else {
                Some((-v) as i64)
            },
            _ => None,
        },
        _ => None,
    }
}

/// Whether an `Open ... at` path is refused with the guidance, and about
/// which name.
pub open spec fn refused_open_path(a: Analyzer, path: Expr) -> Option<Option<Seq<char>>> {
    match path {
        Expr::StringLit(_) | Expr::FormatString { .. } => None,
        Expr::Identifier(name) => if a.buffer_variables@.contains(name@) || a.list_variables@.contains(
            name@,
        ) {
            Some(Some(name@))
        } else {
            None
        },
        Expr::FloatLit(_) | Expr::BoolLit(_) | Expr::ListLit { .. } | Expr::Range { .. }
        | Expr::PropertyCheck { .. } | Expr::TypeCheck { .. } => Some(None),
        Expr::Cast { target_type, .. } => if target_type == Type::Integer || target_type
            == Type::Text {
            None
        } else {
            Some(None)
        },
        _ => None,
    }
}

/// A short name for a statement kind, for the shared-library diagnostic.
pub fn shared_top_level_label(stmt: &Statement) -> (r: &'static str)
    ensures
        r == statement_label(*stmt),
{
    match stmt {
        Statement::Print { .. } => "print statement",
        Statement::VarDecl { .. } => "variable declaration",
        Statement::Assignment { .. } => "assignment",
        Statement::If { .. } => "if statement",
        Statement::While { .. } => "while loop",
        Statement::ForRange { .. } | Statement::ForEach { .. } | Statement::Repeat { .. } => "loop",
        Statement::FunctionCall { .. } => "function call",
        Statement::Exit { .. } => "exit statement",
        Statement::OnError { .. } => "on error handler",
        Statement::FlagSchemaDecl { .. } | Statement::ParseFlags => "flag declaration",
        _ => "statement",
    }
}

impl Analyzer {
    /// The value of an integer literal, or of a negated one.
    pub fn expr_integer_literal_value(&self, expr: &Expr) -> (r: Option<i64>)
        ensures
            r == integer_literal_value(*expr),
    {
        match expr {
            Expr::IntegerLit(value) => Some(*value),
            Expr::UnaryOp { op: UnaryOperator::Negate, operand } => {
                match &**operand {
                    Expr::IntegerLit(value) => {
                        if *value == i64::MIN {
                            None
                        } else {
                            Some(-*value)
                        }
                    },
                    _ => None,
                }
            },
            _ => None,
        }
    }

    /// Refuse an `Open ... at` path that is neither a text path nor a file
    /// descriptor in range.
    pub fn validate_file_open_path(&mut self, path: &Expr)
        ensures
            final(self).same_but_errors(old(self)),
            match integer_literal_value(*path) {
                Some(fd) => if 0 <= fd <= FD_MAX {
                    final(self).errors@ == old(self).errors@
                } else {
                    &&& final(self).errors@.len() == old(self).errors@.len() + 1
                    &&& errors_kept(old(self).errors@, final(self).errors@)
                    &&& final(self).errors@.last().message@ == "File descriptor out of range after 'at': "@
                        + crate::text::dec_int(fd as int)
                        + ". Valid range is 0..2147483647 (0 = stdin)."@
                },
                None => match refused_open_path(*old(self), *path) {
                    None => final(self).errors@ == old(self).errors@,
                    Some(_) => {
                        &&& final(self).errors@.len() == old(self).errors@.len() + 1
                        &&& errors_kept(old(self).errors@, final(self).errors@)
                    },
                },
            },
    {
        if let Some(fd) = self.expr_integer_literal_value(path) {
            if !(0 <= fd && fd <= FD_MAX) {
                let text = i64_text(fd);
                self.push_error(
                    cat3(
                        "File descriptor out of range after 'at': ",
                        text.as_str(),
                        ". Valid range is 0..2147483647 (0 = stdin).",
                    ),
                    None,
                );
            }
            return;
        }
        let guidance = "Open path must be either a text path like \"/path/to/file\" or a file descriptor number (0 = stdin, 1 = stdout, 2 = stderr).";
        match path {
            Expr::StringLit(_) | Expr::FormatString { .. } => {},
            Expr::Identifier(name) => {
                if self.is_buffer_variable(name.as_str()) || self.is_list_variable(name.as_str()) {
                    self.push_error(String::from_str(guidance), Some(name.as_str()));
                }
            },
            Expr::FloatLit(_) | Expr::BoolLit(_) | Expr::ListLit { .. } | Expr::Range { .. }
            | Expr::PropertyCheck { .. } | Expr::TypeCheck { .. } => {
                self.push_error(String::from_str(guidance), None);
            },
            Expr::Cast { target_type, .. } => {
                match target_type {
                    Type::Integer | Type::Text => {},
                    _ => {
                        self.push_error(String::from_str(guidance), None);
                    },
                }
            },
            _ => {},
        }
    }

    /// Refuse a statement's target that is unknown here, or of the wrong
    /// kind.
    fn check_target(&mut self, name: &str, unknown: &str, wrong: &str, right_kind: bool)
        ensures
            final(self).same_but_errors(old(self)),
            !old(self).available(name@) ==> {
                &&& final(self).errors@.len() == old(self).errors@.len() + 1
                &&& errors_kept(old(self).errors@, final(self).errors@)
                &&& final(self).errors@.last().message@ == if old(self).used_before_declaration(
                    name@,
                ) {
                    crate::analyzer::scope::used_before_message(name@)
                } else {
                    unknown@ + name@
                }
            },
            old(self).available(name@) && !right_kind ==> {
                &&& final(self).errors@.len() == old(self).errors@.len() + 1
                &&& errors_kept(old(self).errors@, final(self).errors@)
                &&& final(self).errors@.last().message@ == wrong@ + name@
            },
            old(self).available(name@) && right_kind ==> final(self).errors@ == old(self).errors@,
    {
        if !self.is_variable_available(name) {
            self.push_error(cat2(unknown, name), Some(name));
        } else if !right_kind {
            self.push_error(cat2(wrong, name), Some(name));
        }
    }

    /// File one function definition under `key`: its existence, its
    /// parameter count and its signature.
    pub fn register_function_definition(
        &mut self,
        key: String,
        params: &Vec<(String, Type)>,
        return_type: &Type,
    )
        ensures
            final(self).functions@ == old(self).functions@.insert(key@),
            final(self).function_param_counts@ == old(self).function_param_counts@.insert(
                key@,
                params@.len() as usize,
            ),
            final(self).function_signatures@.contains_key(key@),
            final(self).function_signatures@[key@].1 == *return_type,
            final(self).function_signatures@[key@].0@.len() == params@.len(),
            walk_keeps(*old(self), *final(self)),
            final(self).errors@ == old(self).errors@,
            *final(self) == (Analyzer {
                functions: final(self).functions,
                function_param_counts: final(self).function_param_counts,
                function_signatures: final(self).function_signatures,
                ..*old(self)
            }),
    {
        self.functions.insert(key.clone());
        self.function_param_counts.insert(key.clone(), params.len());
        self.function_signatures.insert(key, (crate::ast::copy_params(params), return_type.copy()));
    }

    /// A step that touches only the diagnostics keeps the walk.
    proof fn lemma_errors_only(a: Analyzer, b: Analyzer)
        requires
            b.same_but_errors(&a),
            errors_kept(a.errors@, b.errors@),
        ensures
            walk_keeps(a, b),
    {
    }

    /// Declare `name` where the walk stands, keeping the walk.
    fn declare_here(&mut self, name: &str)
        ensures
            walk_keeps(*old(self), *final(self)),
            final(self).available(name@),
            final(self).in_function_scope == old(self).in_function_scope,
            final(self).buffer_variables == old(self).buffer_variables,
            final(self).list_variables == old(self).list_variables,
            final(self).map_variables == old(self).map_variables,
            final(self).file_variables == old(self).file_variables,
            final(self).timer_variables == old(self).timer_variables,
            final(self).allocated_variables == old(self).allocated_variables,
            final(self).value_typed_names == old(self).value_typed_names,
            final(self).scalar_types == old(self).scalar_types,
    {
        self.declare_variable_in_current_scope(name);
        assert forall|g: Seq<char>| #[trigger] guarded_names(old(self).guarded_scopes@, g).subset_of(
            guarded_names(self.guarded_scopes@, g),
        ) by {
        }
    }

    /// The statements that act on a named buffer, list, map, file or timer,
    /// or on the system.
    fn analyze_target_statement(&mut self, stmt: &Statement)
        ensures
            walk_keeps(*old(self), *final(self)),
            *stmt matches Statement::TimerStart { name } ==> target_checked(
                *old(self),
                *final(self),
                name@,
                "Unknown timer: "@,
                "Start requires a timer: "@,
                old(self).timer_variables@.contains(name@),
            ),
            *stmt matches Statement::TimerStop { name } ==> target_checked(
                *old(self),
                *final(self),
                name@,
                "Unknown timer: "@,
                "Stop requires a timer: "@,
                old(self).timer_variables@.contains(name@),
            ),
    {
        match stmt {
            Statement::ByteSet { buffer, .. } => {
                self.track_identifier(buffer.as_str());
                let ok = self.is_buffer_variable(buffer.as_str());
                self.check_target(buffer.as_str(), "Unknown buffer: ", "Byte set target must be a buffer: ", ok);
            },
            Statement::ElementSet { list, .. } => {
                self.track_identifier(list.as_str());
                let ok = self.is_list_variable(list.as_str());
                self.check_target(list.as_str(), "Unknown list: ", "Element set target must be a list: ", ok);
            },
            Statement::MapSet { map, .. } => {
                self.track_identifier(map.as_str());
                let ok = self.is_map_variable(map.as_str());
                self.check_target(map.as_str(), "Unknown map: ", "Map set target must be a map: ", ok);
            },
            Statement::ListAppend { list, value } => {
                self.track_identifier(list.as_str());
                if self.is_used_before_its_declaration(list.as_str()) {
                    self.push_used_before_declaration(list.as_str());
                    return;
                }
                if self.is_buffer_variable(list.as_str()) {
                    let source = match value {
                        Expr::TreatingAs { value: subject, .. } => &**subject,
                        plain => plain,
                    };
                    match source {
                        Expr::Identifier(src) => {
                            if !self.is_variable_available(src.as_str()) {
                                self.push_error(cat2("Unknown buffer: ", src.as_str()), Some(src.as_str()));
                            } else if !self.is_buffer_variable(src.as_str()) && !match self.scalar_types.get(
                                src.as_str(),
                            ) {
                                Some(Type::Text) => true,
                                _ => false,
                            } {
                                self.push_error(
                                    cat2("Buffer append requires a buffer source: ", src.as_str()),
                                    Some(src.as_str()),
                                );
                            }
                        },
                        Expr::StringLit(_) | Expr::FormatString { .. } => {},
                        _ => {
                            self.push_error(
                                String::from_str("Buffer append requires a buffer source or format/literal text"),
                                Some(list.as_str()),
                            );
                        },
                    }
                } else if self.is_list_variable(list.as_str()) {
                } else if !self.is_variable_available(list.as_str()) {
                    self.push_error(cat2("Unknown variable: ", list.as_str()), Some(list.as_str()));
                } else {
                    self.push_error(cat2("Append target must be a buffer or list: ", list.as_str()), Some(list.as_str()));
                }
            },
            Statement::BufferCopy { source, destination } => {
                if let Expr::Identifier(source_name) = source {
                    self.track_identifier(source_name.as_str());
                }
                self.track_identifier(destination.as_str());
                match source {
                    Expr::Identifier(source_name) => {
                        let ok = self.is_buffer_variable(source_name.as_str());
                        self.check_target(source_name.as_str(), "Unknown buffer: ", "Copy source must be a buffer: ", ok);
                    },
                    Expr::StringLit(_) | Expr::FormatString { .. } => {},
                    _ => {
                        self.push_error(
                            String::from_str("Copy source must be a buffer or format/literal text"),
                            Some(destination.as_str()),
                        );
                    },
                }
                let ok = self.is_buffer_variable(destination.as_str());
                self.check_target(destination.as_str(), "Unknown buffer: ", "Copy destination must be a buffer: ", ok);
            },
            Statement::BufferClear { name } => {
                self.track_identifier(name.as_str());
                let ok = self.is_buffer_variable(name.as_str());
                self.check_target(name.as_str(), "Unknown buffer: ", "Clear target must be a buffer: ", ok);
            },
            Statement::FileOpen { name, path } => {
                self.variables.insert(name.clone());
                self.file_variables.insert(name.clone());
                self.validate_file_open_path(path);
                self.deps.uses_io = true;
            },
            Statement::FileRead { buffer } | Statement::FileReadLine { buffer } => {
                let ok = self.is_buffer_variable(buffer.as_str());
                self.check_target(buffer.as_str(), "Unknown buffer: ", "Read target must be a buffer: ", ok);
                self.deps.uses_io = true;
            },
            Statement::FileSeekLine { file, .. } | Statement::FileSeekByte { file, .. } => {
                let ok = self.file_variables.contains(file.as_str());
                self.check_target(file.as_str(), "Unknown file: ", "Seek target must be a file: ", ok);
                self.deps.uses_io = true;
            },
            Statement::FileWrite { file, .. } | Statement::FileWriteNewline { file } => {
                let ok = self.file_variables.contains(file.as_str());
                self.check_target(file.as_str(), "Unknown file: ", "Write target must be a file: ", ok);
                self.deps.uses_io = true;
            },
            Statement::FileClose { file } => {
                let ok = self.file_variables.contains(file.as_str());
                self.check_target(file.as_str(), "Unknown file: ", "Close target must be a file: ", ok);
                self.deps.uses_io = true;
            },
            Statement::FileDelete { .. } | Statement::Rmdir { .. } | Statement::Mkdir { .. }
            | Statement::Chdir { .. } | Statement::Mount { .. } | Statement::Unmount { .. }
            | Statement::Shutdown | Statement::Reboot | Statement::Halt | Statement::PivotRoot { .. }
            | Statement::SendSignal { .. } | Statement::Symlink { .. } | Statement::Mknod { .. } => {
                self.deps.uses_io = true;
            },
            Statement::Execute { .. } => {
                self.deps.uses_io = true;
                self.deps.uses_args = true;
                self.deps.uses_heap = true;
            },
            Statement::BufferResize { name, .. } => {
                let ok = self.is_buffer_variable(name.as_str());
                self.check_target(name.as_str(), "Unknown buffer: ", "Resize target must be a buffer: ", ok);
                self.deps.uses_heap = true;
            },
            Statement::TimerStart { name } => {
                let ok = self.timer_variables.contains(name.as_str());
                self.check_target(name.as_str(), "Unknown timer: ", "Start requires a timer: ", ok);
            },
            Statement::TimerStop { name } => {
                let ok = self.timer_variables.contains(name.as_str());
                self.check_target(name.as_str(), "Unknown timer: ", "Stop requires a timer: ", ok);
            },
            _ => {},
        }
    }

    /// The statements that contain no statements of their own.
    #[verifier::rlimit(50)]
    fn analyze_simple_statement(&mut self, stmt: &Statement)
        ensures
            walk_keeps(*old(self), *final(self)),
            stmt is Break || stmt is Continue ==> {
                &&& old(self).loop_depth == 0 ==> {
                    &&& final(self).errors@.len() == old(self).errors@.len() + 1
                    &&& final(self).errors@.last().message@ == if stmt is Break {
                        "Break is only valid inside a loop"@
                    } else {
                        "Continue is only valid inside a loop"@
                    }
                }
                &&& old(self).loop_depth != 0 ==> final(self).errors@ == old(self).errors@
            },
            stmt is Return && old(self).in_function_scope ==> final(self).errors@ == old(self).errors@,
            stmt is Return && !old(self).in_function_scope ==> {
                &&& final(self).errors@.len() == old(self).errors@.len() + 1
                &&& final(self).errors@.last().message@ == "Return is only valid inside a function"@
                &&& old(self).pending_blank_line_truncation is None && old(self).pending_return_truncation is None
                    ==> final(self).errors@.last().hint is None && final(self).errors@.last().location is None
                &&& old(self).pending_blank_line_truncation matches Some((_, _, loc)) ==> final(self).errors@.last().location
                    matches Some(l) && l.line == loc.line && l.column == loc.column
            },
            *stmt matches Statement::VarDecl { name, .. } ==> final(self).available(name@),
            *stmt is ParseFlags ==> final(self).errors@ == old(self).errors@ && final(self).deps.uses_args,
            step_target(*stmt) matches Some((n, kw)) ==> step_checked(*old(self), *final(self), n, kw),
            *stmt matches Statement::TimerStart { name } ==> target_checked(
                *old(self),
                *final(self),
                name@,
                "Unknown timer: "@,
                "Start requires a timer: "@,
                old(self).timer_variables@.contains(name@),
            ),
            *stmt matches Statement::TimerStop { name } ==> target_checked(
                *old(self),
                *final(self),
                name@,
                "Unknown timer: "@,
                "Stop requires a timer: "@,
                old(self).timer_variables@.contains(name@),
            ),
            forall|n: Seq<char>| declares_outright(*stmt, n) ==> final(self).variables@.contains(n),
            forall|n: Seq<char>| declares_timer(*stmt, n) ==> final(self).timer_variables@.contains(n),
    {
        match stmt {
            Statement::Print { .. } => {
                self.deps.uses_io = true;
            },
            Statement::VarDecl { name, var_type, value } => {
                let ghost start = *self;
                self.declare_here(name.as_str());
                match var_type {
                    Some(Type::Buffer) => {
                        self.buffer_variables.insert(name.clone());
                    },
                    Some(Type::List(_)) => {
                        self.list_variables.insert(name.clone());
                    },
                    Some(Type::Dict(_)) => {
                        self.map_variables.insert(name.clone());
                    },
                    Some(Type::Value) => {
                        self.value_typed_names.insert(name.clone());
                    },
                    _ => {},
                }
                let ghost mid = *self;
                self.maybe_activate_true_guard(name.as_str(), var_type, value);
                proof {
                    assert forall|g: Seq<char>| #[trigger] guarded_names(mid.guarded_scopes@, g).subset_of(
                        guarded_names(self.guarded_scopes@, g),
                    ) by {
                    }
                    lemma_walk_keeps_trans(*old(self), mid, *self);
                    law_availability_only_grows(mid, *self, name@);
                }
                match var_type {
                    Some(Type::Float) => {
                        self.scalar_types.insert(name.clone(), Type::Float);
                    },
                    Some(Type::Integer) => {
                        self.scalar_types.insert(name.clone(), Type::Integer);
                    },
                    Some(Type::Boolean) => {
                        self.scalar_types.insert(name.clone(), Type::Boolean);
                    },
                    Some(Type::Text) => {
                        self.scalar_types.remove(name.as_str());
                    },
                    _ => {},
                }
            },
            Statement::FlagSchemaDecl { name, .. } => {
                self.deps.uses_args = true;
                self.declare_here(name.as_str());
            },
            Statement::ParseFlags => {
                self.deps.uses_args = true;
            },
            Statement::Assignment { name, value } => {
                let brings_the_name_into_being = !self.is_variable_available(name.as_str());
                if brings_the_name_into_being {
                    if self.in_function_scope {
                        self.push_unknown_variable(name.as_str());
                    } else {
                        self.declare_here(name.as_str());
                    }
                }
                let is_format = match value {
                    Expr::FormatString { .. } => true,
                    _ => false,
                };
                if is_format && self.is_variable_available(name.as_str()) && !self.is_buffer_variable(
                    name.as_str(),
                ) {
                    self.push_error(
                        cat2("Format-string assignment requires a buffer destination: ", name.as_str()),
                        Some(name.as_str()),
                    );
                }
            },
            Statement::ValueRetype { name, target_type } => {
                if !self.is_variable_available(name.as_str()) {
                    let mut err = CompileError::new(
                        cat3("Cannot retype '", name.as_str(), "': it is not declared"),
                    );
                    err.help_lines.push(
                        cat5(
                            "declare '",
                            name.as_str(),
                            "' as a value first: a value called ",
                            name.as_str(),
                            " is <value>.",
                        ),
                    );
                    self.errors.push(err);
                } else if self.value_typed_names.contains(name.as_str()) {
                    self.scalar_types.insert(name.clone(), target_type.copy());
                }
            },
            Statement::Return { .. } => {
                if !self.in_function_scope {
                    let mut hint: Option<String> = None;
                    let mut location: Option<SourceLocation> = None;
                    if let Some((func, _, loc)) = &self.pending_blank_line_truncation {
                        location = Some(loc.copy());
                        let line = crate::text::u64_text(loc.line as u64);
                        hint = Some(
                            cat5(
                                "a blank line ended `",
                                func.as_str(),
                                "`'s body early at line ",
                                line.as_str(),
                                " — a paragraph break closes all open clauses, so this Return is no longer inside it",
                            ),
                        );
                    } else if let Some((func, loc)) = &self.pending_return_truncation {
                        location = Some(loc.copy());
                        let line = crate::text::u64_text(loc.line as u64);
                        hint = Some(
                            cat5(
                                "a Return closed `",
                                func.as_str(),
                                "`'s body early at line ",
                                line.as_str(),
                                " — a body-level Return ends the function it's in, so this Return is no longer inside it",
                            ),
                        );
                    }
                    self.push_error_with_hint_at(
                        String::from_str("Return is only valid inside a function"),
                        location,
                        hint,
                    );
                }
            },
            Statement::Allocate { name, .. } => {
                self.deps.uses_heap = true;
                self.variables.insert(name.clone());
                self.allocated_variables.insert(name.clone());
            },
            Statement::Free { name } => {
                self.deps.uses_heap = true;
                if !self.is_variable_available(name.as_str()) {
                    self.push_error(cat2("Freeing unknown variable: ", name.as_str()), Some(name.as_str()));
                } else if !self.is_buffer_variable(name.as_str()) && !self.is_list_variable(name.as_str())
                    && !self.allocated_variables.contains(name.as_str()) {
                    self.push_error(cat2("Free requires a buffer or list: ", name.as_str()), Some(name.as_str()));
                }
            },
            Statement::FunctionCall { .. } => {
                self.deps.uses_funcs = true;
            },
            Statement::Increment { name } | Statement::Decrement { name } => {
                let kw = match stmt {
                    Statement::Increment { .. } => "Increment",
                    _ => "Decrement",
                };
                if !self.is_variable_available(name.as_str()) {
                    self.push_unknown_variable(name.as_str());
                } else if self.is_buffer_variable(name.as_str()) || self.is_list_variable(name.as_str())
                    || self.is_map_variable(name.as_str()) || self.file_variables.contains(name.as_str())
                    || self.flag_variables.contains_key(name.as_str()) || self.timer_variables.contains(
                    name.as_str(),
                ) {
                    let err = CompileError::new(cat3(kw, " requires a number variable: ", name.as_str()));
                    self.errors.push(err);
                }
            },
            Statement::Break | Statement::Continue => {
                if self.loop_depth == 0 {
                    let kw = match stmt {
                        Statement::Break => "Break",
                        _ => "Continue",
                    };
                    proof {
                        reveal_strlit("Break");
                        reveal_strlit("Continue");
                        reveal_strlit(" is only valid inside a loop");
                        reveal_strlit("Break is only valid inside a loop");
                        reveal_strlit("Continue is only valid inside a loop");
                    }
                    self.push_error(cat2(kw, " is only valid inside a loop"), None);
                }
            },
            Statement::BufferDecl { name, .. } => {
                self.variables.insert(name.clone());
                self.buffer_variables.insert(name.clone());
                self.deps.uses_heap = true;
            },
            Statement::ByteSet { .. } | Statement::ElementSet { .. } | Statement::MapSet { .. }
            | Statement::ListAppend { .. } | Statement::BufferCopy { .. } | Statement::BufferClear { .. }
            | Statement::FileOpen { .. } | Statement::FileRead { .. } | Statement::FileReadLine { .. }
            | Statement::FileSeekLine { .. } | Statement::FileSeekByte { .. } | Statement::FileWrite { .. }
            | Statement::FileWriteNewline { .. } | Statement::FileClose { .. } | Statement::FileDelete { .. }
            | Statement::Rmdir { .. } | Statement::Mkdir { .. } | Statement::Chdir { .. }
            | Statement::Mount { .. } | Statement::Unmount { .. } | Statement::Shutdown
            | Statement::Reboot | Statement::Halt | Statement::PivotRoot { .. }
            | Statement::SendSignal { .. } | Statement::Symlink { .. } | Statement::Mknod { .. }
            | Statement::Execute { .. } | Statement::BufferResize { .. } | Statement::TimerStart { .. }
            | Statement::TimerStop { .. } => {
                self.analyze_target_statement(stmt);
            },
            Statement::LibraryDecl { name, version } => {
                self.pending_blank_line_truncation = None;
                self.current_library = Some((name.clone(), version.clone()));
            },
            Statement::TimerDecl { name } => {
                self.variables.insert(name.clone());
                self.timer_variables.insert(name.clone());
            },
            Statement::GetTime { into } => {
                self.variables.insert(into.clone());
                self.scalar_types.insert(into.clone(), Type::Integer);
            },
            _ => {},
        }
    }

    /// Walk the statements of a body, in order.
    pub fn analyze_body(&mut self, body: &Vec<Statement>)
        ensures
            walk_keeps(*old(self), *final(self)),
            old(self).loop_depth > 0 && loop_controls_only(body@) ==> final(self).errors@ == old(self).errors@,
        decreases body@, 1int,
    {
        let mut i: usize = 0;
        while i < body.len()
            invariant
                i <= body@.len(),
                walk_keeps(*old(self), *self),
                old(self).loop_depth > 0 && loop_controls_only(body@) ==> self.errors@ == old(self).errors@,
            decreases body@.len() - i,
        {
            assert(decreases_to!(body@ => body@[i as int]));
            let ghost before = *self;
            self.analyze_statement(&body[i]);
            proof {
                lemma_walk_keeps_trans(*old(self), before, *self);
            }
            i = i + 1;
        }
    }

    /// Walk one branch of an `If` from `input_env`, with `active_guard` in
    /// force while it runs. Hands back the environment the branch ends in
    /// (names declared under the branch's own guard count as declared
    /// outright there) and whether it ends every path; the walk itself is
    /// left where it was.
    pub fn analyze_block_in_scope(
        &mut self,
        block: &Vec<Statement>,
        input_env: &AnalysisEnv,
        active_guard: Option<&str>,
    ) -> (r: (AnalysisEnv, bool))
        ensures
            final(self).variables@ == old(self).variables@,
            final(self).guarded_scopes@ == old(self).guarded_scopes@,
            final(self).active_guards@ == old(self).active_guards@,
            final(self).block_depth == old(self).block_depth,
            final(self).loop_depth == old(self).loop_depth,
            final(self).in_function_scope == old(self).in_function_scope,
            final(self).global_variables@ == old(self).global_variables@,
            final(self).flag_variables@ == old(self).flag_variables@,
            final(self).conflicted_globals@ == old(self).conflicted_globals@,
            final(self).shared_mode == old(self).shared_mode,
            final(self).warnings == old(self).warnings,
            errors_kept(old(self).errors@, final(self).errors@),
            deps_kept(old(self).deps, final(self).deps),
            input_env.always@.subset_of(r.0.always@),
            guards_kept(input_env.guarded@, r.0.guarded@),
            r.1 == block_terminates(block@),
            active_guard matches Some(g) ==> forall|n: Seq<char>|
                #[trigger] guarded_names(r.0.guarded@, g@).contains(n) && !guarded_names(input_env.guarded@, g@).contains(
                    n,
                ) ==> r.0.always@.contains(n),
            forall|n: Seq<char>| #[trigger] block_declares(block@, n) ==> r.0.always@.contains(n),
            old(self).timer_variables@.subset_of(final(self).timer_variables@),
            forall|n: Seq<char>| #[trigger] block_declares_timer(block@, n) ==> final(self).timer_variables@.contains(n),
        decreases block@, 1int,
    {
        let saved_env = self.current_env();
        let saved_len = self.active_guards.len();
        let saved_block_depth = self.block_depth;
        self.apply_env(input_env);
        self.block_depth = if saved_block_depth < usize::MAX {
            saved_block_depth + 1
        } else {
            saved_block_depth
        };
        if let Some(guard) = active_guard {
            self.active_guards.push(String::from_str(guard));
        }
        let guard_baseline: Option<NameSet> = match active_guard {
            Some(g) => Some(self.guarded_scopes.names_under(g)),
            None => None,
        };
        let ghost entry = *self;
        let mut terminates = false;
        let mut i: usize = 0;
        while i < block.len() && !terminates
            invariant
                i <= block@.len(),
                walk_keeps(entry, *self),
                terminates ==> block_terminates(block@),
                terminates ==> 0 < i && stmt_terminates(block@[i - 1]),
                !terminates ==> forall|j: int| 0 <= j < i ==> !stmt_terminates(#[trigger] block@[j]),
                forall|j: int, n: Seq<char>|
                    0 <= j < i && #[trigger] declares_outright(block@[j], n) ==> self.variables@.contains(n),
                forall|j: int, n: Seq<char>|
                    0 <= j < i && #[trigger] declares_timer(block@[j], n) ==> self.timer_variables@.contains(n),
            decreases block@.len() - i,
        {
            assert(decreases_to!(block@ => block@[i as int]));
            let ghost before = *self;
            self.analyze_statement(&block[i]);
            proof {
                lemma_walk_keeps_trans(entry, before, *self);
                assert forall|j: int, n: Seq<char>|
                    0 <= j < i + 1 && #[trigger] declares_outright(block@[j], n) implies self.variables@.contains(n) by {
                    if j < i {
                        assert(before.variables@.contains(n));
                    }
                }
                assert forall|j: int, n: Seq<char>|
                    0 <= j < i + 1 && #[trigger] declares_timer(block@[j], n) implies self.timer_variables@.contains(n) by {
                    if j < i {
                        assert(before.timer_variables@.contains(n));
                    }
                }
            }
            if self.statement_always_terminates(&block[i]) {
                terminates = true;
            }
            i = i + 1;
        }
        let mut resulting_env = self.current_env();
        proof {
            assert forall|n: Seq<char>| #[trigger] block_declares(block@, n) implies resulting_env.always@.contains(n) by {
                let j = choose|j: int|
                    0 <= j < block@.len() && #[trigger] declares_outright(block@[j], n) && forall|k: int|
                        0 <= k < j ==> !stmt_terminates(#[trigger] block@[k]);
                if terminates {
                    assert(!stmt_terminates(block@[i - 1]) || i - 1 >= j);
                }
                assert(j < i);
            }
            assert forall|n: Seq<char>| #[trigger] block_declares_timer(block@, n) implies self.timer_variables@.contains(n) by {
                let j = choose|j: int|
                    0 <= j < block@.len() && #[trigger] declares_timer(block@[j], n) && forall|k: int|
                        0 <= k < j ==> !stmt_terminates(#[trigger] block@[k]);
                if terminates {
                    assert(!stmt_terminates(block@[i - 1]) || i - 1 >= j);
                }
                assert(j < i);
            }
        }
        if let (Some(guard), Some(baseline)) = (active_guard, &guard_baseline) {
            if resulting_env.guarded.has_guard(guard) {
                let current = resulting_env.guarded.names_under(guard);
                let newly_declared = current.difference(baseline);
                resulting_env.always.extend(&newly_declared);
            }
        }
        proof {
            assert forall|g: Seq<char>| #[trigger] guarded_names(input_env.guarded@, g).subset_of(
                guarded_names(resulting_env.guarded@, g),
            ) by {
                assert(guarded_names(entry.guarded_scopes@, g).subset_of(guarded_names(self.guarded_scopes@, g)));
            }
        }
        self.block_depth = saved_block_depth;
        self.active_guards.truncate(saved_len);
        self.apply_env(&saved_env);
        (resulting_env, terminates)
    }

    /// An `If`: every branch starts from the same scope; afterwards a name
    /// is available outright only if every path that continues declared it.
    #[verifier::loop_isolation(false)]
    fn analyze_if(&mut self, stmt: &Statement)
        requires
            *stmt is If,
        ensures
            walk_keeps(*old(self), *final(self)),
            (*stmt matches Statement::If { else_block: None, .. }) ==> final(self).variables@
                == old(self).variables@,
            final(self).active_guards@ == old(self).active_guards@,
            forall|n: Seq<char>| #[trigger] if_declares(*stmt, n) ==> final(self).variables@.contains(n),
            forall|n: Seq<char>| #[trigger] if_declares_timer(*stmt, n) ==> final(self).timer_variables@.contains(n),
        decreases stmt, 0int,
    {
        match stmt {
            Statement::If { condition, then_block, else_if_blocks, else_block } => {
                let branch_env = self.current_env();
                let ghost start = *self;
                let mut continuing: Vec<AnalysisEnv> = Vec::new();
                let guard_key = Self::simple_guard_key(condition);
                let guard: Option<&str> = match &guard_key {
                    Some(k) => Some(k.as_str()),
                    None => None,
                };
                let (then_env, then_terminates) = self.analyze_block_in_scope(then_block, &branch_env, guard);
                if !then_terminates {
                    continuing.push(then_env);
                }
                let ghost after_then = self.timer_variables@;
                let mut i: usize = 0;
                while i < else_if_blocks.len()
                    invariant
                        i <= else_if_blocks@.len(),
                        branch_env.always@ == start.variables@,
                        branch_env.guarded@ == start.guarded_scopes@,
                        self.variables@ == start.variables@,
                        self.guarded_scopes@ == start.guarded_scopes@,
                        self.active_guards@ == start.active_guards@,
                        self.block_depth == start.block_depth,
                        self.loop_depth == start.loop_depth,
                        self.in_function_scope == start.in_function_scope,
                        self.global_variables@ == start.global_variables@,
                        self.flag_variables@ == start.flag_variables@,
                        self.conflicted_globals@ == start.conflicted_globals@,
                        self.shared_mode == start.shared_mode,
                        errors_kept(start.errors@, self.errors@),
                        deps_kept(start.deps, self.deps),
                        self.warnings == start.warnings,
                        start.timer_variables@.subset_of(self.timer_variables@),
                        after_then.subset_of(self.timer_variables@),
                        forall|j: int| 0 <= j < continuing@.len() ==> branch_env.always@.subset_of(
                            (#[trigger] continuing@[j]).always@) && guards_kept(
                            branch_env.guarded@,
                            continuing@[j].guarded@,
                        ),
                        !block_terminates(then_block@) ==> continuing@.len() > 0,
                        forall|n: Seq<char>, j: int|
                            #![trigger if_declares(*stmt, n), continuing@[j]]
                            if_declares(*stmt, n) && 0 <= j < continuing@.len() ==> continuing@[j].always@.contains(n),
                    decreases else_if_blocks@.len() - i,
                {
                    let (elif_env, elif_terminates) = self.analyze_block_in_scope(
                        &else_if_blocks[i].1,
                        &branch_env,
                        None,
                    );
                    if !elif_terminates {
                        continuing.push(elif_env);
                    }
                    i = i + 1;
                }
                let has_else = else_block.is_some();
                match else_block {
                    Some(block) => {
                        let (else_env, else_terminates) = self.analyze_block_in_scope(block, &branch_env, None);
                        if !else_terminates {
                            continuing.push(else_env);
                        }
                    },
                    None => {
                        continuing.push(branch_env.copy());
                    },
                }
                let merged = self.merge_continuing_envs(&continuing, &branch_env);
                proof {
                    let views = env_views(continuing@);
                    if continuing@.len() > 0 {
                        assert forall|j: int| 0 <= j < views.len() implies branch_env.always@.subset_of(
                            #[trigger] views[j].0) by {
                            assert(views[j].0 == continuing@[j].always@);
                        }
                        lemma_every_path_superset(views, branch_env.always@);
                        assert forall|g: Seq<char>| #[trigger] guarded_names(branch_env.guarded@, g).subset_of(
                            guarded_names(merged.guarded@, g)) by {
                            assert forall|j: int| 0 <= j < views.len() implies guards_kept(
                                branch_env.guarded@, #[trigger] views[j].1) by {
                                assert(views[j].1 == continuing@[j].guarded@);
                            }
                            lemma_any_path_superset(views, branch_env.guarded@, g);
                        }
                        if !has_else {
                            let last = continuing@.len() - 1;
                            assert(views[last].0 == continuing@[last].always@);
                            lemma_every_path_within(views, last);
                        }
                    }
                }
                proof {
                    assert forall|n: Seq<char>| #[trigger] if_declares(*stmt, n) implies merged.always@.contains(n) by {
                        let views = env_views(continuing@);
                        let one = Set::<Seq<char>>::empty().insert(n);
                        assert forall|j: int| 0 <= j < views.len() implies one.subset_of(#[trigger] views[j].0) by {
                            assert(views[j].0 == continuing@[j].always@);
                            assert(continuing@[j].always@.contains(n));
                        }
                        lemma_every_path_superset(views, one);
                        assert(one.contains(n));
                    }
                }
                self.apply_env(&merged);
            },
            _ => {},
        }
    }

    /// A function definition: its name is checked and filed, and its body
    /// is walked in a scope of its own - the globals and its parameters -
    /// which is thrown away afterwards, so nothing the body declares leaks.
    #[verifier::spinoff_prover]
    #[verifier::rlimit(40)]
    fn analyze_function_def(&mut self, stmt: &Statement)
        requires
            *stmt is FunctionDef,
        ensures
            walk_keeps(*old(self), *final(self)),
            final(self).variables@ == old(self).variables@,
            final(self).guarded_scopes@ == old(self).guarded_scopes@,
            final(self).active_guards@ == old(self).active_guards@,
            final(self).scalar_types@ == old(self).scalar_types@,
            final(self).buffer_variables@ == old(self).buffer_variables@,
            final(self).list_variables@ == old(self).list_variables@,
            final(self).map_variables@ == old(self).map_variables@,
            final(self).file_variables@ == old(self).file_variables@,
            final(self).timer_variables@ == old(self).timer_variables@,
            final(self).allocated_variables@ == old(self).allocated_variables@,
            final(self).value_typed_names@ == old(self).value_typed_names@,
            final(self).current_function_return_type == old(self).current_function_return_type,
            final(self).current_function_name == old(self).current_function_name,
            final(self).deps.uses_funcs,
        decreases stmt, 0int,
    {
        match stmt {
            Statement::FunctionDef {
                name,
                params,
                return_type,
                body,
                body_ended_early,
                body_ended_via_return,
            } => {
                self.pending_blank_line_truncation = None;
                self.pending_return_truncation = None;
                let ghost start = *self;
                if name.unicode_len() > 0 && name.as_str().get_char(0) == '_' {
                    let ghost s0 = *self;
                    self.push_error(
                        cat3(
                            "Function name '",
                            name.as_str(),
                            "' starts with '_', which is reserved for the Vox runtime; choose a name without the leading underscore.",
                        ),
                        Some(name.as_str()),
                    );
                    proof {
                        Self::lemma_errors_only(s0, *self);
                    }
                }
                let symbol = crate::symbols::make_function_label(
                    self.shared_mode,
                    self.current_library.as_ref(),
                    name.as_str(),
                );
                let clash: Option<String> = match self.mangled_functions.get(symbol.as_str()) {
                    Some(prev) => if str_eq(prev.as_str(), name.as_str()) {
                        None
                    } else {
                        Some(prev.clone())
                    },
                    None => None,
                };
                match clash {
                    Some(prev) => {
                        let mut msg = cat5("Functions '", prev.as_str(), "' and '", name.as_str(), "' both become the assembly symbol '");
                        msg.append(symbol.as_str());
                        msg.append("'; rename one so they stay distinct.");
                        let ghost s1 = *self;
                        self.push_error(msg, Some(name.as_str()));
                        proof {
                            Self::lemma_errors_only(s1, *self);
                            lemma_walk_keeps_trans(start, s1, *self);
                        }
                    },
                    None => {
                        self.mangled_functions.insert(symbol.clone(), name.clone());
                    },
                }
                self.functions.insert(symbol.clone());
                self.function_param_counts.insert(symbol, params.len());
                self.deps.uses_funcs = true;
                if self.shared_mode {
                    let mut p: usize = 0;
                    while p < params.len()
                        invariant
                            p <= params@.len(),
                            walk_keeps(start, *self),
                            self.variables == start.variables,
                            self.guarded_scopes == start.guarded_scopes,
                            self.active_guards == start.active_guards,
                            self.scalar_types == start.scalar_types,
                            self.buffer_variables == start.buffer_variables,
                            self.list_variables == start.list_variables,
                            self.map_variables == start.map_variables,
                            self.file_variables == start.file_variables,
                            self.timer_variables == start.timer_variables,
                            self.allocated_variables == start.allocated_variables,
                            self.value_typed_names == start.value_typed_names,
                            self.current_function_return_type == start.current_function_return_type,
                            self.current_function_name == start.current_function_name,
                            self.deps.uses_funcs,
                        decreases params@.len() - p,
                    {
                        if let Type::Thing(thing) = &params[p].1 {
                            let mut msg = cat5("Exported function '", name.as_str(), "' takes a ", thing.as_str(), " ('");
                            msg.append(params[p].0.as_str());
                            msg.append("'), which a library interface cannot describe yet\n  A thing is a layout private to one compilation; pass its fields across the boundary instead.");
                            let ghost before = *self;
                            self.push_error(msg, Some(name.as_str()));
                            proof {
                                Self::lemma_errors_only(before, *self);
                                lemma_walk_keeps_trans(start, before, *self);
                            }
                        }
                        p = p + 1;
                    }
                    if let Type::Thing(thing) = return_type {
                        let msg = cat5("Exported function '", name.as_str(), "' returns a ", thing.as_str(), ", which a library interface cannot describe yet\n  A thing is a layout private to one compilation; return one of its fields instead.");
                        let ghost before = *self;
                        self.push_error(msg, Some(name.as_str()));
                        proof {
                            Self::lemma_errors_only(before, *self);
                            lemma_walk_keeps_trans(start, before, *self);
                        }
                    }
                }
                assert(walk_keeps(start, *self));
                let ghost outer = *self;
                // The function's own scope: the globals and its parameters.
                let saved_env = self.current_env();
                let mut saved_guards: Vec<String> = Vec::new();
                std::mem::swap(&mut saved_guards, &mut self.active_guards);
                let saved_block_depth = self.block_depth;
                let saved_in_function_scope = self.in_function_scope;
                let saved_scalar_types = copy_type_map(&self.scalar_types);
                let saved_buffer_variables = self.buffer_variables.copy();
                let saved_list_variables = self.list_variables.copy();
                let saved_map_variables = self.map_variables.copy();
                let saved_file_variables = self.file_variables.copy();
                let saved_timer_variables = self.timer_variables.copy();
                let saved_allocated_variables = self.allocated_variables.copy();
                let saved_value_typed_names = self.value_typed_names.copy();
                let mut saved_return_type: Option<Type> = Some(return_type.copy());
                std::mem::swap(&mut saved_return_type, &mut self.current_function_return_type);
                let mut saved_function_name: Option<String> = Some(name.clone());
                std::mem::swap(&mut saved_function_name, &mut self.current_function_name);
                self.variables = self.global_variables.copy();
                self.guarded_scopes = GuardTable::new();
                self.in_function_scope = true;
                self.block_depth = 0;
                let mut p: usize = 0;
                while p < params.len()
                    invariant
                        p <= params@.len(),
                        errors_kept(outer.errors@, self.errors@),
                        deps_kept(outer.deps, self.deps),
                        self.global_variables@ == outer.global_variables@,
                        self.flag_variables@ == outer.flag_variables@,
                        self.conflicted_globals@ == outer.conflicted_globals@,
                        self.shared_mode == outer.shared_mode,
                        self.loop_depth == outer.loop_depth,
                        self.warnings == outer.warnings,
                    decreases params@.len() - p,
                {
                    let pname = params[p].0.as_str();
                    self.variables.insert(params[p].0.clone());
                    match &params[p].1 {
                        Type::Buffer => {
                            self.buffer_variables.insert(params[p].0.clone());
                        },
                        Type::List(_) => {
                            self.list_variables.insert(params[p].0.clone());
                        },
                        Type::Dict(_) => {
                            self.map_variables.insert(params[p].0.clone());
                        },
                        Type::File => {
                            self.file_variables.insert(params[p].0.clone());
                        },
                        Type::Integer | Type::Float | Type::Text | Type::Boolean => {
                            self.scalar_types.insert(params[p].0.clone(), params[p].1.copy());
                        },
                        Type::Value => {
                            self.value_typed_names.insert(params[p].0.clone());
                        },
                        _ => {},
                    }
                    p = p + 1;
                }
                self.analyze_body(body);
                self.block_depth = saved_block_depth;
                self.active_guards = saved_guards;
                self.in_function_scope = saved_in_function_scope;
                self.scalar_types = saved_scalar_types;
                self.buffer_variables = saved_buffer_variables;
                self.list_variables = saved_list_variables;
                self.map_variables = saved_map_variables;
                self.file_variables = saved_file_variables;
                self.timer_variables = saved_timer_variables;
                self.allocated_variables = saved_allocated_variables;
                self.value_typed_names = saved_value_typed_names;
                self.current_function_return_type = saved_return_type;
                self.current_function_name = saved_function_name;
                self.apply_env(&saved_env);
                self.pending_blank_line_truncation = match body_ended_early {
                    Some(loc) => {
                        let mut names: Vec<String> = Vec::new();
                        let mut k: usize = 0;
                        while k < params.len()
                            invariant
                                k <= params@.len(),
                            decreases params@.len() - k,
                        {
                            names.push(params[k].0.clone());
                            k = k + 1;
                        }
                        Some((name.clone(), names, loc.copy()))
                    },
                    None => None,
                };
                self.pending_return_truncation = match body_ended_via_return {
                    Some(loc) => Some((name.clone(), loc.copy())),
                    None => None,
                };
                proof {
                    assert forall|g: Seq<char>| #[trigger] guarded_names(old(self).guarded_scopes@, g).subset_of(
                        guarded_names(self.guarded_scopes@, g)) by {
                    }
                    assert(errors_kept(outer.errors@, self.errors@));
                    assert(errors_kept(old(self).errors@, outer.errors@));
                }
            },
            _ => {},
        }
    }

    /// Analyze one statement where the walk stands.
    #[verifier::loop_isolation(false)]
    pub fn analyze_statement(&mut self, stmt: &Statement)
        ensures
            walk_keeps(*old(self), *final(self)),
            *stmt is FunctionDef ==> {
                &&& final(self).variables@ == old(self).variables@
                &&& final(self).guarded_scopes@ == old(self).guarded_scopes@
                &&& final(self).active_guards@ == old(self).active_guards@
                &&& final(self).scalar_types@ == old(self).scalar_types@
                &&& final(self).buffer_variables@ == old(self).buffer_variables@
                &&& final(self).list_variables@ == old(self).list_variables@
                &&& final(self).map_variables@ == old(self).map_variables@
                &&& final(self).file_variables@ == old(self).file_variables@
                &&& final(self).timer_variables@ == old(self).timer_variables@
                &&& final(self).allocated_variables@ == old(self).allocated_variables@
                &&& final(self).value_typed_names@ == old(self).value_typed_names@
                &&& final(self).current_function_return_type == old(self).current_function_return_type
                &&& final(self).current_function_name == old(self).current_function_name
            },
            (*stmt matches Statement::If { else_block: None, .. }) ==> final(self).variables@
                == old(self).variables@,
            *stmt is If ==> final(self).active_guards@ == old(self).active_guards@,
            *stmt matches Statement::Repeat { body, .. } && loop_controls_only(body@) ==> final(self).errors@
                == old(self).errors@,
            *stmt matches Statement::While { body, .. } && loop_controls_only(body@) ==> final(self).errors@
                == old(self).errors@,
            *stmt matches Statement::ForRange { body, .. } && loop_controls_only(body@) ==> final(self).errors@
                == old(self).errors@,
            *stmt matches Statement::ForEach { collection, body, .. } && loop_controls_only(body@)
                && non_collection_kind_of(*old(self), collection) is None ==> final(self).errors@ == old(self).errors@,
            *stmt matches Statement::ForEach { collection, body, .. } && loop_controls_only(body@)
                && non_collection_kind_of(*old(self), collection) is Some ==> final(self).errors@.len() == old(
                self,
            ).errors@.len() + 1,
            *stmt matches Statement::VarDecl { name, .. } ==> final(self).available(name@),
            *stmt is ParseFlags ==> final(self).errors@ == old(self).errors@ && final(self).deps.uses_args,
            step_target(*stmt) matches Some((n, kw)) ==> step_checked(*old(self), *final(self), n, kw),
            *stmt matches Statement::TimerStart { name } ==> target_checked(
                *old(self),
                *final(self),
                name@,
                "Unknown timer: "@,
                "Start requires a timer: "@,
                old(self).timer_variables@.contains(name@),
            ),
            *stmt matches Statement::TimerStop { name } ==> target_checked(
                *old(self),
                *final(self),
                name@,
                "Unknown timer: "@,
                "Stop requires a timer: "@,
                old(self).timer_variables@.contains(name@),
            ),
            forall|n: Seq<char>| declares_outright(*stmt, n) ==> final(self).variables@.contains(n),
            forall|n: Seq<char>| #[trigger] if_declares(*stmt, n) ==> final(self).variables@.contains(n),
            forall|n: Seq<char>| declares_timer(*stmt, n) ==> final(self).timer_variables@.contains(n),
            forall|n: Seq<char>| #[trigger] if_declares_timer(*stmt, n) ==> final(self).timer_variables@.contains(n),
            *stmt is Break || *stmt is Continue ==> {
                &&& old(self).loop_depth == 0 ==> {
                    &&& final(self).errors@.len() == old(self).errors@.len() + 1
                    &&& final(self).errors@.last().message@ == if *stmt is Break {
                        "Break is only valid inside a loop"@
                    } else {
                        "Continue is only valid inside a loop"@
                    }
                }
                &&& old(self).loop_depth != 0 ==> final(self).errors@ == old(self).errors@
            },
            *stmt is Return && !old(self).in_function_scope ==> {
                &&& final(self).errors@.len() == old(self).errors@.len() + 1
                &&& final(self).errors@.last().message@ == "Return is only valid inside a function"@
                &&& old(self).pending_blank_line_truncation is None && old(self).pending_return_truncation is None
                    ==> final(self).errors@.last().hint is None && final(self).errors@.last().location is None
                &&& old(self).pending_blank_line_truncation matches Some((_, _, loc)) ==> final(self).errors@.last().location
                    matches Some(l) && l.line == loc.line && l.column == loc.column
            },
        decreases stmt, 1int,
    {
        match stmt {
            Statement::If { .. } => {
                self.analyze_if(stmt);
            },
            Statement::FunctionDef { .. } => {
                self.analyze_function_def(stmt);
            },
            Statement::While { body, .. } | Statement::Repeat { body, .. } => {
                let saved = self.loop_depth;
                self.loop_depth = if saved < usize::MAX {
                    saved + 1
                } else {
                    saved
                };
                let ghost mid = *self;
                self.analyze_body(body);
                self.loop_depth = saved;
                proof {
                    assert forall|g: Seq<char>| #[trigger] guarded_names(old(self).guarded_scopes@, g).subset_of(
                        guarded_names(self.guarded_scopes@, g)) by {
                        assert(guarded_names(mid.guarded_scopes@, g).subset_of(guarded_names(self.guarded_scopes@, g)));
                    }
                }
            },
            Statement::ForRange { variable, body, .. } => {
                self.variables.insert(variable.clone());
                let saved = self.loop_depth;
                self.loop_depth = if saved < usize::MAX {
                    saved + 1
                } else {
                    saved
                };
                let ghost mid = *self;
                self.analyze_body(body);
                self.loop_depth = saved;
                proof {
                    assert forall|g: Seq<char>| #[trigger] guarded_names(old(self).guarded_scopes@, g).subset_of(
                        guarded_names(self.guarded_scopes@, g)) by {
                        assert(guarded_names(mid.guarded_scopes@, g).subset_of(guarded_names(self.guarded_scopes@, g)));
                    }
                }
            },
            Statement::ForEach { variable, collection, body } => {
                self.check_loop_collection(variable.as_str(), collection);
                self.variables.insert(variable.clone());
                self.scalar_types.remove(variable.as_str());
                let collection_is_buffer = match collection {
                    Expr::Identifier(n) => self.is_buffer_variable(n.as_str()),
                    _ => false,
                };
                self.value_typed_names.remove(variable.as_str());
                if collection_is_buffer {
                    self.scalar_types.insert(variable.clone(), Type::Integer);
                }
                let saved = self.loop_depth;
                self.loop_depth = if saved < usize::MAX {
                    saved + 1
                } else {
                    saved
                };
                let ghost mid = *self;
                self.analyze_body(body);
                self.loop_depth = saved;
                proof {
                    assert forall|g: Seq<char>| #[trigger] guarded_names(old(self).guarded_scopes@, g).subset_of(
                        guarded_names(self.guarded_scopes@, g)) by {
                        assert(guarded_names(mid.guarded_scopes@, g).subset_of(guarded_names(self.guarded_scopes@, g)));
                    }
                }
            },
            Statement::OnError { actions } => {
                self.analyze_body(actions);
            },
            _ => {
                self.analyze_simple_statement(stmt);
            },
        }
    }

    /// File every function definition and flag declaration before the
    /// walk, refusing a flag declared after `parse flags.` and a second
    /// `parse flags.`.
    #[verifier::spinoff_prover]
    fn file_functions_and_flags(&mut self, program: &Program)
        ensures
            errors_kept(old(self).errors@, final(self).errors@),
            messages(final(self).errors@) == messages(old(self).errors@) + flag_diagnostics(program.statements@),
            old(self).global_variables@.subset_of(final(self).global_variables@),
            *final(self) == (Analyzer {
                functions: final(self).functions,
                function_param_counts: final(self).function_param_counts,
                function_signatures: final(self).function_signatures,
                flag_variables: final(self).flag_variables,
                global_variables: final(self).global_variables,
                errors: final(self).errors,
                ..*old(self)
            }),
    {
        let mut explicit_parse_seen = false;
        let mut current_lib: Option<(String, String)> = None;
        let mut k: usize = 0;
        proof {
            assert(program.statements@.take(0) =~= Seq::<Statement>::empty());
            assert(messages(self.errors@) =~= messages(old(self).errors@) + flag_diagnostics(program.statements@.take(0)));
        }
        while k < program.statements.len()
            invariant
                k <= program.statements@.len(),
                errors_kept(old(self).errors@, self.errors@),
                messages(self.errors@) == messages(old(self).errors@) + flag_diagnostics(program.statements@.take(k as int)),
                explicit_parse_seen == parse_seen_before(program.statements@, k as int),
                old(self).global_variables@.subset_of(self.global_variables@),
                *self == (Analyzer {
                    functions: self.functions,
                    function_param_counts: self.function_param_counts,
                    function_signatures: self.function_signatures,
                    flag_variables: self.flag_variables,
                    global_variables: self.global_variables,
                    errors: self.errors,
                    ..*old(self)
                }),
            decreases program.statements@.len() - k,
        {
            let ghost e0 = self.errors@;
            let ghost t = program.statements@.take(k + 1);
            proof {
                assert(t.drop_last() =~= program.statements@.take(k as int));
                assert(t.last() == program.statements@[k as int]);
                assert(parse_seen_before(t, k as int) == parse_seen_before(program.statements@, k as int)) by {
                    if parse_seen_before(program.statements@, k as int) {
                        let j = choose|j: int| 0 <= j < k && #[trigger] program.statements@[j] is ParseFlags;
                        assert(t[j] == program.statements@[j]);
                    }
                    if parse_seen_before(t, k as int) {
                        let j = choose|j: int| 0 <= j < k && #[trigger] t[j] is ParseFlags;
                        assert(t[j] == program.statements@[j]);
                    }
                }
            }
            match &program.statements[k] {
                Statement::LibraryDecl { name, version } => {
                    current_lib = Some((name.clone(), version.clone()));
                },
                Statement::FunctionDef { name, params, return_type, .. } => {
                    let key = crate::symbols::make_function_label(
                        self.shared_mode,
                        current_lib.as_ref(),
                        name.as_str(),
                    );
                    self.register_function_definition(key, params, return_type);
                },
                Statement::FlagSchemaDecl { name, value_type, .. } => {
                    let t = match value_type {
                        FlagValueType::Boolean => Type::Boolean,
                        FlagValueType::Number => Type::Integer,
                        FlagValueType::Text => Type::Text,
                    };
                    self.flag_variables.insert(name.clone(), t);
                    self.global_variables.insert(name.clone());
                    if explicit_parse_seen {
                        assert(!self.used_before_declaration(name@));
                        self.push_error(
                            String::from_str("Cannot declare new flags after 'parse flags.'"),
                            Some(name.as_str()),
                        );
                        proof {
                            assert(messages(self.errors@) =~= messages(e0).push("Cannot declare new flags after 'parse flags.'"@));
                        }
                    }
                },
                Statement::ParseFlags => {
                    if explicit_parse_seen {
                        self.push_error(String::from_str("Duplicate 'parse flags.' statement"), None);
                        proof {
                            assert(messages(self.errors@) =~= messages(e0).push("Duplicate 'parse flags.' statement"@));
                        }
                    }
                    explicit_parse_seen = true;
                },
                _ => {},
            }
            proof {
                assert(messages(self.errors@) =~= messages(old(self).errors@) + flag_diagnostics(t));
                if program.statements@[k as int] is ParseFlags {
                    assert(parse_seen_before(program.statements@, k + 1));
                } else if parse_seen_before(program.statements@, k + 1) {
                    let j = choose|j: int| 0 <= j < k + 1 && #[trigger] program.statements@[j] is ParseFlags;
                    assert(parse_seen_before(program.statements@, k as int));
                }
            }
            k = k + 1;
        }
        proof {
            assert(program.statements@.take(program.statements@.len() as int) =~= program.statements@);
        }
    }

    /// Analyze a whole program: refuse a shared library's dropped top-level
    /// code, file every function and flag before the walk (so a call or a
    /// read judges a definition further down exactly as one above), walk
    /// the statements in order, and record the runtime pieces the program
    /// needs.
    pub fn analyze(&mut self, program: &mut Program)
        ensures
            final(program).statements == old(program).statements,
            errors_kept(old(self).errors@, final(self).errors@),
            old(self).shared_mode && (exists|i: int| 0 <= i < old(program).statements@.len()
                && !allowed_in_library(#[trigger] old(program).statements@[i])) ==> {
                &&& final(self).errors@.len() == old(self).errors@.len() + 1
                &&& exists|i: int| 0 <= i < old(program).statements@.len()
                    && !allowed_in_library(#[trigger] old(program).statements@[i])
                    && (forall|j: int| 0 <= j < i ==> allowed_in_library(#[trigger] old(program).statements@[j]))
                    && final(self).errors@.last().message@ == library_top_level_message(
                    statement_label(old(program).statements@[i])@)
            },
            old(self).shared_mode && (forall|i: int| 0 <= i < old(program).statements@.len()
                ==> allowed_in_library(#[trigger] old(program).statements@[i])) && !(exists|i: int|
                0 <= i < old(program).statements@.len() && #[trigger] old(program).statements@[i] is LibraryDecl) ==> {
                &&& final(self).errors@.len() == old(self).errors@.len() + 1
                &&& final(self).errors@.last().message@ == library_identity_message()
            },
            old(self).shared_mode && (forall|i: int| 0 <= i < old(program).statements@.len()
                ==> allowed_in_library(#[trigger] old(program).statements@[i])) && (exists|i: int|
                0 <= i < old(program).statements@.len() && #[trigger] old(program).statements@[i] is LibraryDecl)
                && !(exists|i: int| 0 <= i < old(program).statements@.len()
                && #[trigger] old(program).statements@[i] is FunctionDef) ==> {
                &&& final(self).errors@.len() == old(self).errors@.len() + 1
                &&& final(self).errors@.last().message@ == library_exports_message()
            },
            library_refused(old(self).shared_mode, old(program).statements@) ==> *final(program) == *old(program),
            !library_refused(old(self).shared_mode, old(program).statements@) ==> {
                &&& final(program).uses_io == final(self).deps.uses_io
                &&& final(program).uses_heap == final(self).deps.uses_heap
                &&& final(program).uses_strings == final(self).deps.uses_strings
                &&& final(program).uses_args == final(self).deps.uses_args
                &&& forall|n: Seq<char>| #[trigger] crate::analyzer::decls::block_definite(old(program).statements@).contains(n)
                    ==> final(self).global_variables@.contains(n) || final(self).conflicted_globals@.contains(n)
                &&& begins_with(
                    messages(final(self).errors@),
                    messages(old(self).errors@) + flag_diagnostics(old(program).statements@),
                )
                &&& (forall|i: int| 0 <= i < old(program).statements@.len() ==> #[trigger] old(program).statements@[i] is ParseFlags)
                    ==> final(self).errors@.len() == old(self).errors@.len() + flag_diagnostics(old(program).statements@).len()
                &&& parse_seen_before(old(program).statements@, old(program).statements@.len() as int) ==> final(program).uses_args
                &&& final(self).warnings@.len() >= old(self).warnings@.len()
                &&& final(self).warnings@.subrange(0, old(self).warnings@.len() as int) == old(self).warnings@
                &&& forall|w: int| old(self).warnings@.len() <= w < final(self).warnings@.len() ==> is_shadow_warning(
                    old(program).statements@,
                    old(self).imports@,
                    #[trigger] final(self).warnings@[w]@,
                )
                &&& forall|k: int, m: int| #[trigger] shadows(old(program).statements@, old(self).imports@, k, m) ==> holds_text(
                    final(self).warnings@,
                    old(self).warnings@.len() as int,
                    import_shadow_warning(old(self).imports@, m),
                )
            },
            !old(self).shared_mode && old(program).statements@.len() == 0 ==> final(self).errors@ == old(self).errors@,
    {
        if self.shared_mode {
            let mut i: usize = 0;
            while i < program.statements.len()
                invariant
                    i <= program.statements@.len(),
                    *self == *old(self),
                    *program == *old(program),
                    old(self).shared_mode,
                    forall|j: int| 0 <= j < i ==> allowed_in_library(#[trigger] program.statements@[j]),
                decreases program.statements@.len() - i,
            {
                let allowed = match &program.statements[i] {
                    Statement::FunctionDef { .. } | Statement::LibraryDecl { .. } | Statement::See
                    | Statement::ThingDecl { .. } => true,
                    _ => false,
                };
                if !allowed {
                    assert(!allowed_in_library(program.statements@[i as int]));
                    assert(!allowed_in_library(old(program).statements@[i as int]));
                    let label = shared_top_level_label(&program.statements[i]);
                    self.push_error(
                        cat3(
                            "Top-level ",
                            label,
                            " is not allowed in a shared library: only function definitions, 'Library', and 'see' may appear at the top level.",
                        ),
                        None,
                    );
                    return;
                }
                i = i + 1;
            }
            let mut has_library = false;
            let mut has_function = false;
            let mut k: usize = 0;
            while k < program.statements.len()
                invariant
                    k <= program.statements@.len(),
                    *self == *old(self),
                    *program == *old(program),
                    has_library == exists|j: int| 0 <= j < k && #[trigger] program.statements@[j] is LibraryDecl,
                    has_function == exists|j: int| 0 <= j < k && #[trigger] program.statements@[j] is FunctionDef,
                decreases program.statements@.len() - k,
            {
                match &program.statements[k] {
                    Statement::LibraryDecl { .. } => {
                        has_library = true;
                    },
                    Statement::FunctionDef { .. } => {
                        has_function = true;
                    },
                    _ => {},
                }
                k = k + 1;
            }
            if !has_library {
                self.push_error(
                    String::from_str(
                        "A shared library must declare its identity with a `Library` declaration giving its name and version — without one there is no mangling and no `.lib`. Add `Library name version \"x.y\".` before the function definitions and rebuild with --shared.",
                    ),
                    None,
                );
                return;
            }
            if !has_function {
                self.push_error(
                    String::from_str(
                        "A shared library must export at least one function, but this file defines none. Add a function definition, or drop --shared to build an executable.",
                    ),
                    None,
                );
                return;
            }
        }
        // Names declared on every path behave as globals; a name two
        // declarations disagree on the kind of is set apart.
        let (definite, conflicted) = crate::analyzer::decls::collect_definite_decls(&program.statements);
        let names = definite.keys();
        let ghost globals0 = self.global_variables@;
        let mut i: usize = 0;
        while i < names.len()
            invariant
                i <= names@.len(),
                self.errors == old(self).errors,
                self.imports == old(self).imports,
                self.warnings == old(self).warnings,
                *program == *old(program),
                forall|n: Seq<char>| definite@.contains_key(n) <==> crate::names::views_of(names@).contains(n),
                forall|n: Seq<char>| crate::names::views_of(names@).take(i as int).contains(n) ==> self.global_variables@.contains(n),
            decreases names@.len() - i,
        {
            proof {
                crate::names::lemma_views_take_step(names@, i as int);
            }
            self.global_variables.insert(names[i].clone());
            match definite.get(names[i].as_str()) {
                Some(crate::analyzer::decls::DeclKind::Buffer) => {
                    self.buffer_variables.insert(names[i].clone());
                },
                Some(crate::analyzer::decls::DeclKind::List) => {
                    self.list_variables.insert(names[i].clone());
                },
                Some(crate::analyzer::decls::DeclKind::Dict) => {
                    self.map_variables.insert(names[i].clone());
                },
                Some(crate::analyzer::decls::DeclKind::File) => {
                    self.file_variables.insert(names[i].clone());
                },
                _ => {},
            }
            i = i + 1;
        }
        self.conflicted_globals = conflicted;
        assert(crate::names::views_of(names@).take(names@.len() as int) == crate::names::views_of(names@));
        assert(forall|n: Seq<char>| #[trigger] crate::analyzer::decls::block_definite(old(program).statements@).contains(n)
            ==> self.global_variables@.contains(n) || self.conflicted_globals@.contains(n));
        // Every function and flag is filed before the walk.
        let ghost g0 = *self;
        self.file_functions_and_flags(program);
        proof {
            assert forall|n: Seq<char>| #[trigger] crate::analyzer::decls::block_definite(old(program).statements@).contains(n)
                implies self.global_variables@.contains(n) || self.conflicted_globals@.contains(n) by {
                if g0.global_variables@.contains(n) {
                    assert(self.global_variables@.contains(n));
                }
            }
        }
        let ghost pre_errors = self.errors@;
        let ghost old_warnings = self.warnings@;
        // A local definition wins over a same-named import, never silently.
        let ghost old_globals = self.global_variables@;
        let ghost old_conflicted = self.conflicted_globals@;
        if self.imports.len() > 0 {
            let mut extra = shadow_warnings(&program.statements, &self.imports);
            let ghost ev = extra@;
            self.warnings.append(&mut extra);
            proof {
                assert(self.warnings@ == old_warnings + ev);
                assert(self.warnings@.subrange(0, old_warnings.len() as int) =~= old_warnings);
                assert forall|w: int| old_warnings.len() <= w < self.warnings@.len() implies is_shadow_warning(
                    program.statements@,
                    self.imports@,
                    #[trigger] self.warnings@[w]@,
                ) by {
                    assert(self.warnings@[w] == ev[w - old_warnings.len()]);
                }
                assert forall|k: int, m: int| #[trigger] shadows(program.statements@, self.imports@, k, m) implies holds_text(
                    self.warnings@,
                    old_warnings.len() as int,
                    import_shadow_warning(self.imports@, m),
                ) by {
                    let x = choose|x: int| 0 <= x < ev.len() && #[trigger] ev[x]@ == import_shadow_warning(self.imports@, m);
                    assert(self.warnings@[x + old_warnings.len()] == ev[x]);
                }
            }
        } else {
            proof {
                assert(self.warnings@.subrange(0, old_warnings.len() as int) =~= old_warnings);
            }
        }
        let ghost new_warnings = self.warnings;
        // The walk, in the order the statements run.
        let mut k: usize = 0;
        while k < program.statements.len()
            invariant
                k <= program.statements@.len(),
                errors_kept(old(self).errors@, self.errors@),
                *program == *old(program),
                self.global_variables@ == old_globals,
                self.conflicted_globals@ == old_conflicted,
                errors_kept(pre_errors, self.errors@),
                self.warnings == new_warnings,
                (forall|i: int| 0 <= i < program.statements@.len() ==> #[trigger] program.statements@[i] is ParseFlags)
                    ==> self.errors@ == pre_errors,
                parse_seen_before(program.statements@, k as int) ==> self.deps.uses_args,
            decreases program.statements@.len() - k,
        {
            let ghost before = *self;
            self.analyze_statement(&program.statements[k]);
            proof {
                assert(errors_kept(before.errors@, self.errors@));
                if parse_seen_before(program.statements@, k + 1) && !parse_seen_before(program.statements@, k as int) {
                    let j = choose|j: int| 0 <= j < k + 1 && #[trigger] program.statements@[j] is ParseFlags;
                    assert(j == k);
                }
            }
            k = k + 1;
        }
        proof {
            assert(messages(self.errors@).subrange(0, pre_errors.len() as int) =~= messages(pre_errors));
        }
        program.uses_io = self.deps.uses_io;
        program.uses_heap = self.deps.uses_heap;
        program.uses_strings = self.deps.uses_strings;
        program.uses_args = self.deps.uses_args;
    }
}

/// Whether `analyze` refuses a shared library before walking it: a
/// top-level statement that would be dropped, no identity, or no export.
pub open spec fn library_refused(shared: bool, stmts: Seq<Statement>) -> bool {
    shared && ((exists|i: int| 0 <= i < stmts.len() && !allowed_in_library(#[trigger] stmts[i]))
        || !(exists|i: int| 0 <= i < stmts.len() && #[trigger] stmts[i] is LibraryDecl)
        || !(exists|i: int| 0 <= i < stmts.len() && #[trigger] stmts[i] is FunctionDef))
}

/// The diagnostic for a shared library with no `Library` declaration.
pub open spec fn library_identity_message() -> Seq<char> {
    "A shared library must declare its identity with a `Library` declaration giving its name and version — without one there is no mangling and no `.lib`. Add `Library name version \"x.y\".` before the function definitions and rebuild with --shared."@
}

/// The diagnostic for a shared library that exports nothing.
pub open spec fn library_exports_message() -> Seq<char> {
    "A shared library must export at least one function, but this file defines none. Add a function definition, or drop --shared to build an executable."@
}

/// The name, library and version of import `m`.
pub open spec fn import_triple(imports: Seq<ImportedFunction>, m: int) -> (Seq<char>, Seq<char>, Seq<char>) {
    (imports[m].name@, imports[m].lib@, imports[m].version@)
}

/// The warnings for functions defined here that an import also exports
/// under the same name: one per name, library and version, in the order
/// the definitions and imports come.
fn shadow_warnings(stmts: &Vec<Statement>, imports: &Vec<ImportedFunction>) -> (r: Vec<String>)
    ensures
        forall|w: int| 0 <= w < r@.len() ==> is_shadow_warning(stmts@, imports@, #[trigger] r@[w]@),
        forall|k: int, m: int| #[trigger] shadows(stmts@, imports@, k, m) ==> holds_text(
            r@,
            0,
            import_shadow_warning(imports@, m),
        ),
{
    let mut out: Vec<String> = Vec::new();
    let mut warned: Vec<(String, String, String)> = Vec::new();
    let ghost mut wit: Seq<(int, int)> = Seq::empty();
    let mut k: usize = 0;
    while k < stmts.len()
        invariant
            k <= stmts@.len(),
            shadow_state(stmts@, imports@, out@, warned@, wit, k as int, 0),
        decreases stmts@.len() - k,
    {
        if let Statement::FunctionDef { name, .. } = &stmts[k] {
            let mut m: usize = 0;
            while m < imports.len()
                invariant
                    k < stmts@.len(),
                    stmts@[k as int] matches Statement::FunctionDef { name: n, .. } && n@ == name@,
                    m <= imports@.len(),
                    shadow_state(stmts@, imports@, out@, warned@, wit, k as int, m as int),
                decreases imports@.len() - m,
            {
                let imp = &imports[m];
                if str_eq(imp.name.as_str(), name.as_str()) {
                    let mut seen = false;
                    let mut w: usize = 0;
                    while w < warned.len()
                        invariant
                            w <= warned@.len(),
                            seen ==> exists|t: int| 0 <= t < warned@.len() && (#[trigger] warned@[t]).0@ == name@
                                && warned@[t].1@ == imp.lib@ && warned@[t].2@ == imp.version@,
                        decreases warned@.len() - w,
                    {
                        if str_eq(warned[w].0.as_str(), name.as_str()) && str_eq(warned[w].1.as_str(), imp.lib.as_str())
                            && str_eq(warned[w].2.as_str(), imp.version.as_str()) {
                            seen = true;
                        }
                        w = w + 1;
                    }
                    proof {
                        assert(shadows(stmts@, imports@, k as int, m as int));
                    }
                    if !seen {
                        let mut text = cat5(
                            "'",
                            name.as_str(),
                            "' is defined in this program and also exported by library \"",
                            imp.lib.as_str(),
                            "\" version \"",
                        );
                        text.append(imp.version.as_str());
                        text.append("\"; the local definition wins — calls to '");
                        text.append(name.as_str());
                        text.append("' resolve to it, not to the library.");
                        assert(text@ == import_shadow_warning(imports@, m as int));
                        let ghost o0 = out@;
                        let ghost w0 = warned@;
                        let ghost wit0 = wit;
                        warned.push((name.clone(), imp.lib.clone(), imp.version.clone()));
                        out.push(text);
                        proof {
                            wit = wit.push((k as int, m as int));
                            lemma_shadow_state_push(stmts@, imports@, o0, w0, wit0, out@, warned@, wit, k as int, m as int);
                        }
                    } else {
                        proof {
                            let t = choose|t: int| 0 <= t < warned@.len() && (#[trigger] warned@[t]).0@ == name@
                                && warned@[t].1@ == imp.lib@ && warned@[t].2@ == imp.version@;
                            lemma_shadow_state_seen(stmts@, imports@, out@, warned@, wit, k as int, m as int, t);
                        }
                    }
                } else {
                    proof {
                        lemma_shadow_state_skip(stmts@, imports@, out@, warned@, wit, k as int, m as int);
                    }
                }
                m = m + 1;
            }
            proof {
                lemma_shadow_state_next(stmts@, imports@, out@, warned@, wit, k as int, imports@.len() as int);
            }
        } else {
            proof {
                lemma_shadow_state_next(stmts@, imports@, out@, warned@, wit, k as int, 0);
            }
        }
        k = k + 1;
    }
    proof {
        assert forall|w: int| 0 <= w < out@.len() implies is_shadow_warning(stmts@, imports@, #[trigger] out@[w]@) by {
            assert(shadows(stmts@, imports@, wit[w].0, wit[w].1));
        }
        assert forall|k2: int, m2: int| #[trigger] shadows(stmts@, imports@, k2, m2) implies holds_text(
            out@,
            0,
            import_shadow_warning(imports@, m2),
        ) by {
            let w = choose|w: int| 0 <= w < wit.len() && import_triple(imports@, #[trigger] wit[w].1) == import_triple(imports@, m2);
            assert(out@[w]@ == import_shadow_warning(imports@, wit[w].1));
        }
    }
    out
}

/// The state of the shadow-warning search before pair `(k, m)`: each
/// warning is witnessed by a pair whose import it names, and each earlier
/// pair's import has its warning.
pub open spec fn shadow_state(
    stmts: Seq<Statement>,
    imports: Seq<ImportedFunction>,
    out: Seq<String>,
    warned: Seq<(String, String, String)>,
    wit: Seq<(int, int)>,
    k: int,
    m: int,
) -> bool {
    &&& out.len() == warned.len() && warned.len() == wit.len()
    &&& forall|w: int| #![trigger wit[w]] 0 <= w < wit.len() ==> {
        &&& shadows(stmts, imports, wit[w].0, wit[w].1)
        &&& out[w]@ == import_shadow_warning(imports, wit[w].1)
        &&& (warned[w].0@, warned[w].1@, warned[w].2@) == import_triple(imports, wit[w].1)
    }
    &&& forall|k2: int, m2: int| #[trigger] shadows(stmts, imports, k2, m2) && (k2 < k || (k2 == k && m2 < m))
        ==> exists|w: int| 0 <= w < wit.len() && import_triple(imports, #[trigger] wit[w].1) == import_triple(imports, m2)
}

proof fn lemma_shadow_state_push(
    stmts: Seq<Statement>,
    imports: Seq<ImportedFunction>,
    o0: Seq<String>,
    w0: Seq<(String, String, String)>,
    wit0: Seq<(int, int)>,
    out: Seq<String>,
    warned: Seq<(String, String, String)>,
    wit: Seq<(int, int)>,
    k: int,
    m: int,
)
    requires
        shadow_state(stmts, imports, o0, w0, wit0, k, m),
        shadows(stmts, imports, k, m),
        out.len() == o0.len() + 1 && forall|i: int| 0 <= i < o0.len() ==> out[i] == o0[i],
        out[o0.len() as int]@ == import_shadow_warning(imports, m),
        warned.len() == w0.len() + 1 && forall|i: int| 0 <= i < w0.len() ==> warned[i] == w0[i],
        (warned[w0.len() as int].0@, warned[w0.len() as int].1@, warned[w0.len() as int].2@) == import_triple(imports, m),
        wit == wit0.push((k, m)),
    ensures
        shadow_state(stmts, imports, out, warned, wit, k, m + 1),
{
    assert forall|k2: int, m2: int| #[trigger] shadows(stmts, imports, k2, m2) && (k2 < k || (k2 == k && m2 < m + 1))
        implies exists|w: int| 0 <= w < wit.len() && import_triple(imports, #[trigger] wit[w].1) == import_triple(imports, m2) by {
        if k2 < k || m2 < m {
            let w = choose|w: int| 0 <= w < wit0.len() && import_triple(imports, #[trigger] wit0[w].1) == import_triple(imports, m2);
            assert(wit[w] == wit0[w]);
        } else {
            assert(wit[wit0.len() as int].1 == m);
        }
    }
}

proof fn lemma_shadow_state_seen(
    stmts: Seq<Statement>,
    imports: Seq<ImportedFunction>,
    out: Seq<String>,
    warned: Seq<(String, String, String)>,
    wit: Seq<(int, int)>,
    k: int,
    m: int,
    t: int,
)
    requires
        shadow_state(stmts, imports, out, warned, wit, k, m),
        shadows(stmts, imports, k, m),
        0 <= t < warned.len(),
        (warned[t].0@, warned[t].1@, warned[t].2@) == import_triple(imports, m),
    ensures
        shadow_state(stmts, imports, out, warned, wit, k, m + 1),
{
    assert(import_triple(imports, wit[t].1) == import_triple(imports, m));
}

proof fn lemma_shadow_state_skip(
    stmts: Seq<Statement>,
    imports: Seq<ImportedFunction>,
    out: Seq<String>,
    warned: Seq<(String, String, String)>,
    wit: Seq<(int, int)>,
    k: int,
    m: int,
)
    requires
        shadow_state(stmts, imports, out, warned, wit, k, m),
        !shadows(stmts, imports, k, m),
    ensures
        shadow_state(stmts, imports, out, warned, wit, k, m + 1),
{
}

proof fn lemma_shadow_state_next(
    stmts: Seq<Statement>,
    imports: Seq<ImportedFunction>,
    out: Seq<String>,
    warned: Seq<(String, String, String)>,
    wit: Seq<(int, int)>,
    k: int,
    m: int,
)
    requires
        shadow_state(stmts, imports, out, warned, wit, k, m),
        0 <= k < stmts.len(),
        m == imports.len() || !(stmts[k] is FunctionDef),
    ensures
        shadow_state(stmts, imports, out, warned, wit, k + 1, 0),
{
}

} // verus!
