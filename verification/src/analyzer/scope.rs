//! Scopes, guards and the diagnostics about names.
use vstd::prelude::*;
use crate::analyzer::{guarded_names, AnalysisEnv, Analyzer, CompileError, GuardTable};
use crate::ast::{BinaryOperator, Expr, SourceLocation, Statement, Type, UnaryOperator};
use crate::names::NameSet;
use crate::text::{cat2, cat3, cat4, cat5, str_eq};

verus! {

/// `'name' is used before it is declared`.
pub open spec fn used_before_message(name: Seq<char>) -> Seq<char> {
    "'"@ + name + "' is used before it is declared"@
}

/// The note of the used-before-declaration diagnostic.
pub open spec fn used_before_note(name: Seq<char>) -> Seq<char> {
    "top-level statements run in the order they are written, and '"@ + name
        + "' is declared further down this file"@
}

/// The help line of the used-before-declaration diagnostic.
pub open spec fn used_before_help(name: Seq<char>) -> Seq<char> {
    "move the declaration of '"@ + name
        + "' above this line; a function body may read a global declared further down, top-level code may not"@
}

/// The reserved-underscore diagnostic for a variable name.
pub open spec fn reserved_variable_message(name: Seq<char>) -> Seq<char> {
    "Variable name '"@ + name
        + "' starts with '_', which is reserved for the Vox runtime; choose a name without the leading underscore."@
}

/// The names of the guards in force.
pub open spec fn guard_views(guards: Seq<String>) -> Seq<Seq<char>> {
    guards.map_values(|g: String| g@)
}

/// Whether `name` is available here: declared outright, or under a guard in
/// force.
pub open spec fn available_in(
    variables: Set<Seq<char>>,
    guarded: Map<Seq<char>, Set<Seq<char>>>,
    guards: Seq<String>,
    name: Seq<char>,
) -> bool {
    variables.contains(name) || exists|i: int|
        0 <= i < guards.len() && #[trigger] guarded_names(guarded, guards[i]@).contains(name)
}

/// The names an environment list has on every path: those in every
/// environment's `always`.
pub open spec fn always_on_every_path(envs: Seq<(Set<Seq<char>>, Map<Seq<char>, Set<Seq<char>>>)>) -> Set<
    Seq<char>,
>
    decreases envs.len(),
{
    if envs.len() <= 1 {
        if envs.len() == 0 {
            Set::empty()
        } else {
            envs[0].0
        }
    } else {
        always_on_every_path(envs.drop_last()).intersect(envs.last().0)
    }
}

/// The names an environment list declares under `g` on any path.
pub open spec fn guarded_on_any_path(
    envs: Seq<(Set<Seq<char>>, Map<Seq<char>, Set<Seq<char>>>)>,
    g: Seq<char>,
) -> Set<Seq<char>>
    decreases envs.len(),
{
    if envs.len() == 0 {
        Set::empty()
    } else {
        guarded_on_any_path(envs.drop_last(), g).union(guarded_names(envs.last().1, g))
    }
}

/// Whether any environment of the list has an entry for guard `g`.
pub open spec fn some_path_has_guard(
    envs: Seq<(Set<Seq<char>>, Map<Seq<char>, Set<Seq<char>>>)>,
    g: Seq<char>,
) -> bool {
    exists|i: int| 0 <= i < envs.len() && #[trigger] envs[i].1.contains_key(g)
}

/// The views of a list of environments.
pub open spec fn env_views(envs: Seq<AnalysisEnv>) -> Seq<
    (Set<Seq<char>>, Map<Seq<char>, Set<Seq<char>>>),
> {
    envs.map_values(|e: AnalysisEnv| (e.always@, e.guarded@))
}

/// The key a condition is remembered by as a guard, when it is simple
/// enough to be re-proven by name: a name, a quoted name, `not` of a key, or
/// `and`/`or` of two keys.
pub open spec fn guard_key(e: Expr) -> Option<Seq<char>>
    decreases e,
{
    match e {
        Expr::Identifier(name) => Some(name@),
        Expr::StringLit(name) => Some(name@),
        Expr::UnaryOp { op: UnaryOperator::Not, operand } => match guard_key(*operand) {
            Some(k) => Some("not ("@ + k + ")"@),
            None => None,
        },
        Expr::BinaryOp { left, op, right } => {
            if op == BinaryOperator::And || op == BinaryOperator::Or {
                match (guard_key(*left), guard_key(*right)) {
                    (Some(l), Some(r)) => Some(
                        "("@ + l + ") "@ + (if op == BinaryOperator::And {
                            "and"@
                        } else {
                            "or"@
                        }) + " ("@ + r + ")"@,
                    ),
                    _ => None,
                }
            } else {
                None
            }
        },
        _ => None,
    }
}

/// Whether a statement ends every path through it: a `Return`, an `Exit`, or
/// an `If` with an `otherwise` whose every branch ends.
pub open spec fn stmt_terminates(s: Statement) -> bool
    decreases s,
{
    match s {
        Statement::Return { .. } | Statement::Exit { .. } => true,
        Statement::If { then_block, else_if_blocks, else_block, .. } => {
            &&& block_terminates(then_block@)
            &&& forall|i: int|
                0 <= i < else_if_blocks@.len() ==> block_terminates(
                    (#[trigger] else_if_blocks@[i]).1@,
                )
            &&& match else_block {
                Some(b) => block_terminates(b@),
                None => false,
            }
        },
        _ => false,
    }
}

/// Whether some statement of a block ends every path.
pub open spec fn block_terminates(b: Seq<Statement>) -> bool
    decreases b,
{
    exists|i: int| 0 <= i < b.len() && stmt_terminates(#[trigger] b[i])
}

/// The kind of a `for each` collection that provably cannot be walked.
pub open spec fn non_collection_kind_of(a: Analyzer, c: Expr) -> Option<&'static str> {
    match c {
        Expr::IntegerLit(_) => Some("number"),
        Expr::FloatLit(_) => Some("float"),
        Expr::BoolLit(_) => Some("boolean"),
        Expr::StringLit(_) | Expr::FormatString { .. } => Some("text"),
        Expr::MapLit { .. } => Some("map"),
        Expr::Identifier(name) => {
            if !available_in(a.variables@, a.guarded_scopes@, a.active_guards@, name@) {
                None
            } else if a.buffer_variables@.contains(name@) {
                None
            } else if a.map_variables@.contains(name@) {
                Some("map")
            } else if a.list_variables@.contains(name@) || a.value_typed_names@.contains(name@) {
                None
            } else if a.scalar_types@.contains_key(name@) {
                match a.scalar_types@[name@] {
                    Type::Integer => Some("number"),
                    Type::Float => Some("float"),
                    Type::Boolean => Some("boolean"),
                    Type::Text => Some("text"),
                    _ => None,
                }
            } else {
                None
            }
        },
        _ => None,
    }
}

/// How a kind is named after "is": `text` takes no article.
pub open spec fn kind_phrase(kind: Seq<char>) -> Seq<char> {
    if kind == "text"@ {
        "text"@
    } else {
        "a "@ + kind
    }
}

/// What the loop diagnostic calls the collection: its name, or its kind.
pub open spec fn loop_subject(kind: Seq<char>, name: Option<Seq<char>>) -> Seq<char> {
    match name {
        Some(n) => n,
        None => kind_phrase(kind),
    }
}

/// The way out the loop diagnostic offers.
pub open spec fn loop_hint(kind: Seq<char>, name: Option<Seq<char>>) -> Seq<char> {
    if kind == "map"@ {
        match name {
            Some(n) => n + " is a map - iterate `"@ + n + "'s keys` or `"@ + n + "'s values`"@,
            None => "a map is iterated through its `'s keys` or `'s values`"@,
        }
    } else {
        match name {
            Some(n) => n + " is "@ + kind_phrase(kind)
                + " - `each ... from` walks a list, a range, a buffer's bytes, or `arguments's all`"@,
            None => "`each ... from` walks a list, a range, a buffer's bytes, or `arguments's all`"@,
        }
    }
}

/// The name a `for each` collection is written as, if it is a bare name.
pub open spec fn collection_name(c: Expr) -> Option<Seq<char>> {
    match c {
        Expr::Identifier(n) => Some(n@),
        _ => None,
    }
}

impl Analyzer {
    /// Whether `name` is available at this point of the walk.
    pub open spec fn available(&self, name: Seq<char>) -> bool {
        available_in(self.variables@, self.guarded_scopes@, self.active_guards@, name)
    }

    /// Whether a read of `name` here is a use of a top-level variable whose
    /// declaration is further down the file.
    pub open spec fn used_before_declaration(&self, name: Seq<char>) -> bool {
        !self.in_function_scope && self.global_variables@.contains(name)
            && !self.flag_variables@.contains_key(name) && !self.available(name)
    }

    /// Everything but the diagnostics is as in `other`.
    pub open spec fn same_but_errors(&self, other: &Analyzer) -> bool {
        *self == (Analyzer { errors: self.errors, ..*other })
    }

    pub fn track_identifier(&mut self, name: &str)
        ensures
            final(self).used_identifiers@ == old(self).used_identifiers@.insert(name@),
            *final(self) == (Analyzer { used_identifiers: final(self).used_identifiers, ..*old(self) }),
    {
        self.used_identifiers.insert(String::from_str(name));
    }

    pub fn track_typo_candidate(&mut self, name: &str)
        ensures
            final(self).typo_candidates@ == old(self).typo_candidates@.insert(name@),
            *final(self) == (Analyzer { typo_candidates: final(self).typo_candidates, ..*old(self) }),
    {
        self.typo_candidates.insert(String::from_str(name));
    }

    pub fn is_variable_available(&self, name: &str) -> (r: bool)
        ensures
            r == self.available(name@),
    {
        if self.variables.contains(name) {
            return true;
        }
        let mut i: usize = 0;
        while i < self.active_guards.len()
            invariant
                i <= self.active_guards@.len(),
                !self.variables@.contains(name@),
                forall|j: int|
                    0 <= j < i ==> !#[trigger] guarded_names(
                        self.guarded_scopes@,
                        self.active_guards@[j]@,
                    ).contains(name@),
            decreases self.active_guards@.len() - i,
        {
            if self.guarded_scopes.holds(self.active_guards[i].as_str(), name) {
                return true;
            }
            i = i + 1;
        }
        false
    }

    /// Whether `name` is declared anywhere in the program, whatever point
    /// the walk has reached.
    pub fn is_variable_declared_anywhere(&self, name: &str) -> (r: bool)
        ensures
            r == (self.available(name@) || self.global_variables@.contains(name@)),
    {
        self.is_variable_available(name) || self.global_variables.contains(name)
    }

    /// Whether a read of `name` right here comes before its top-level
    /// declaration. Never inside a function body, and never of a flag.
    pub fn is_used_before_its_declaration(&self, name: &str) -> (r: bool)
        ensures
            r == self.used_before_declaration(name@),
    {
        !self.in_function_scope && self.global_variables.contains(name)
            && !self.flag_variables.contains_key(name) && !self.is_variable_available(name)
    }

    /// Report a read of `name` above its top-level declaration.
    pub fn push_used_before_declaration(&mut self, name: &str)
        ensures
            final(self).same_but_errors(old(self)),
            final(self).errors@.len() == old(self).errors@.len() + 1,
            forall|i: int| 0 <= i < old(self).errors@.len() ==> final(self).errors@[i] == old(self).errors@[i],
            final(self).errors@.last().message@ == used_before_message(name@),
            final(self).errors@.last().hint is None,
            final(self).errors@.last().note_lines@.len() == 1,
            final(self).errors@.last().note_lines@[0]@ == used_before_note(name@),
            final(self).errors@.last().help_lines@.len() == 1,
            final(self).errors@.last().help_lines@[0]@ == used_before_help(name@),
    {
        let mut err = CompileError::new(cat3("'", name, "' is used before it is declared"));
        err.note_lines.push(
            cat3(
                "top-level statements run in the order they are written, and '",
                name,
                "' is declared further down this file",
            ),
        );
        err.help_lines.push(
            cat3(
                "move the declaration of '",
                name,
                "' above this line; a function body may read a global declared further down, top-level code may not",
            ),
        );
        self.errors.push(err);
    }

    /// Report `message` about `symbol`; a symbol read above its top-level
    /// declaration is reported as exactly that instead.
    pub fn push_error(&mut self, message: String, symbol: Option<&str>)
        ensures
            final(self).same_but_errors(old(self)),
            final(self).errors@.len() == old(self).errors@.len() + 1,
            forall|i: int| 0 <= i < old(self).errors@.len() ==> final(self).errors@[i] == old(self).errors@[i],
            match symbol {
                Some(n) if old(self).used_before_declaration(n@) => final(self).errors@.last().message@
                    == used_before_message(n@),
                _ => final(self).errors@.last().message@ == message@ && final(self).errors@.last().hint is None,
            },
    {
        self.push_error_with_hint(message, symbol, None);
    }

    /// `push_error` with an optional hint line.
    pub fn push_error_with_hint(&mut self, message: String, symbol: Option<&str>, hint: Option<&str>)
        ensures
            final(self).same_but_errors(old(self)),
            final(self).errors@.len() == old(self).errors@.len() + 1,
            forall|i: int| 0 <= i < old(self).errors@.len() ==> final(self).errors@[i] == old(self).errors@[i],
            match symbol {
                Some(n) if old(self).used_before_declaration(n@) => final(self).errors@.last().message@
                    == used_before_message(n@),
                _ => {
                    &&& final(self).errors@.last().message@ == message@
                    &&& match hint {
                        Some(h) => final(self).errors@.last().hint matches Some(x) && x@ == h@,
                        None => final(self).errors@.last().hint is None,
                    }
                },
            },
    {
        if let Some(name) = symbol {
            if self.is_used_before_its_declaration(name) {
                self.push_used_before_declaration(name);
                return;
            }
        }
        let mut err = CompileError::new(message);
        if let Some(h) = hint {
            err.hint = Some(String::from_str(h));
        }
        self.errors.push(err);
    }

    /// Report `message` with an optional hint at a location already known,
    /// with no symbol to search for.
    pub fn push_error_with_hint_at(&mut self, message: String, location: Option<SourceLocation>, hint: Option<String>)
        ensures
            final(self).same_but_errors(old(self)),
            final(self).errors@ == old(self).errors@.push(final(self).errors@.last()),
            final(self).errors@.last().message@ == message@,
            final(self).errors@.last().location == location,
            final(self).errors@.last().hint == hint,
    {
        let mut err = CompileError::new(message);
        err.location = location;
        err.hint = hint;
        self.errors.push(err);
        assert(self.errors@ == old(self).errors@.push(self.errors@.last()));
    }

    /// Report a read of an unknown variable: silent for a name two
    /// declarations disagree on, a used-before-declaration error for a name
    /// declared further down, and otherwise `Unknown variable`, with a hint
    /// when a blank line closed a function whose parameter it was.
    pub fn push_unknown_variable(&mut self, name: &str)
        ensures
            final(self).same_but_errors(old(self)),
            old(self).conflicted_globals@.contains(name@) ==> final(self).errors@ == old(self).errors@,
            !old(self).conflicted_globals@.contains(name@) ==> {
                &&& final(self).errors@.len() == old(self).errors@.len() + 1
                &&& forall|i: int| 0 <= i < old(self).errors@.len() ==> final(self).errors@[i] == old(self).errors@[i]
                &&& final(self).errors@.last().message@ == if old(self).used_before_declaration(name@) {
                    used_before_message(name@)
                } else {
                    "Unknown variable: "@ + name@
                }
            },
    {
        if self.conflicted_globals.contains(name) {
            return;
        }
        if self.is_used_before_its_declaration(name) {
            self.push_used_before_declaration(name);
            return;
        }
        let mut hint: Option<String> = None;
        if let Some((func, params, loc)) = &self.pending_blank_line_truncation {
            let mut found = false;
            let mut i: usize = 0;
            while i < params.len()
                invariant
                    i <= params@.len(),
                decreases params@.len() - i,
            {
                if str_eq(params[i].as_str(), name) {
                    found = true;
                }
                i = i + 1;
            }
            if found {
                let line = crate::text::u64_text(loc.line as u64);
                let mut h = cat5("a blank line ended `", func.as_str(), "`'s body early at line ", line.as_str(), " — a paragraph break closes all open clauses, including the enclosing function, so `");
                h.append(name);
                h.append("` is no longer in scope here");
                hint = Some(h);
            }
        }
        self.push_error_with_hint_at(cat2("Unknown variable: ", name), None, hint);
    }

    /// The environment the walk is in.
    pub fn current_env(&self) -> (r: AnalysisEnv)
        ensures
            r.always@ == self.variables@,
            r.guarded@ == self.guarded_scopes@,
    {
        AnalysisEnv { always: self.variables.copy(), guarded: self.guarded_scopes.copy() }
    }

    /// Put the walk into `env`.
    pub fn apply_env(&mut self, env: &AnalysisEnv)
        ensures
            final(self).variables@ == env.always@,
            final(self).guarded_scopes@ == env.guarded@,
            *final(self) == (Analyzer {
                variables: final(self).variables,
                guarded_scopes: final(self).guarded_scopes,
                ..*old(self)
            }),
    {
        self.variables = env.always.copy();
        self.guarded_scopes = env.guarded.copy();
    }

    /// Declare `name` where the walk stands: outright, or under every guard
    /// in force. A name beginning with `_` is refused, after it is declared.
    pub fn declare_variable_in_current_scope(&mut self, name: &str)
        ensures
            old(self).active_guards@.len() == 0 ==> final(self).variables@ == old(self).variables@.insert(name@)
                && final(self).guarded_scopes@ == old(self).guarded_scopes@,
            old(self).active_guards@.len() > 0 ==> final(self).variables@ == old(self).variables@
                && forall|g: Seq<char>| #![trigger guarded_names(final(self).guarded_scopes@, g)]
                    guarded_names(final(self).guarded_scopes@, g) == if guard_views(old(self).active_guards@).contains(g) {
                        guarded_names(old(self).guarded_scopes@, g).insert(name@)
                    } else {
                        guarded_names(old(self).guarded_scopes@, g)
                    },
            final(self).available(name@),
            forall|n: Seq<char>| old(self).available(n) ==> final(self).available(n),
            *final(self) == (Analyzer {
                variables: final(self).variables,
                guarded_scopes: final(self).guarded_scopes,
                errors: final(self).errors,
                ..*old(self)
            }),
            (name@.len() > 0 && name@[0] == '_') ==> final(self).errors@.len() == old(self).errors@.len() + 1
                && final(self).errors@.last().message@ == reserved_variable_message(name@),
            !(name@.len() > 0 && name@[0] == '_') ==> final(self).errors@ == old(self).errors@,
            forall|i: int| 0 <= i < old(self).errors@.len() ==> final(self).errors@[i] == old(self).errors@[i],
    {
        if self.active_guards.len() == 0 {
            self.variables.insert(String::from_str(name));
        } else {
            let mut i: usize = 0;
            while i < self.active_guards.len()
                invariant
                    i <= self.active_guards@.len(),
                    self.active_guards == old(self).active_guards,
                    self.variables == old(self).variables,
                    *self == (Analyzer { guarded_scopes: self.guarded_scopes, ..*old(self) }),
                    forall|g: Seq<char>| #![trigger guarded_names(self.guarded_scopes@, g)]
                        guarded_names(self.guarded_scopes@, g) == if guard_views(self.active_guards@.take(i as int)).contains(g) {
                            guarded_names(old(self).guarded_scopes@, g).insert(name@)
                        } else {
                            guarded_names(old(self).guarded_scopes@, g)
                        },
                decreases self.active_guards@.len() - i,
            {
                let ghost before = self.guarded_scopes@;
                let mut table = GuardTable::new();
                std::mem::swap(&mut table, &mut self.guarded_scopes);
                table.add(self.active_guards[i].as_str(), name);
                self.guarded_scopes = table;
                proof {
                    let gs = self.active_guards@;
                    assert(guard_views(gs.take(i + 1)) == guard_views(gs.take(i as int)).push(gs[i as int]@));
                    assert forall|g: Seq<char>| #![trigger guarded_names(self.guarded_scopes@, g)]
                        guarded_names(self.guarded_scopes@, g) == if guard_views(gs.take(i + 1)).contains(g) {
                            guarded_names(old(self).guarded_scopes@, g).insert(name@)
                        } else {
                            guarded_names(old(self).guarded_scopes@, g)
                        } by {
                        let a = guard_views(gs.take(i as int));
                        let b = guard_views(gs.take(i + 1));
                        assert(b.contains(g) <==> (a.contains(g) || g == gs[i as int]@)) by {
                            if b.contains(g) {
                                let j = choose|j: int| 0 <= j < b.len() && b[j] == g;
                                if j < i {
                                    assert(a[j] == g);
                                }
                            }
                            if a.contains(g) {
                                let j = choose|j: int| 0 <= j < a.len() && a[j] == g;
                                assert(b[j] == g);
                            }
                            if g == gs[i as int]@ {
                                assert(b[i as int] == g);
                            }
                        }
                        assert(guarded_names(before, g) == if a.contains(g) {
                            guarded_names(old(self).guarded_scopes@, g).insert(name@)
                        } else {
                            guarded_names(old(self).guarded_scopes@, g)
                        });
                        if g == gs[i as int]@ {
                            assert(guarded_names(before, g).insert(name@) =~= guarded_names(old(self).guarded_scopes@, g).insert(name@));
                        }
                    }
                }
                i = i + 1;
            }
            assert(self.active_guards@.take(self.active_guards@.len() as int) == self.active_guards@);
        }
        proof {
            let gs = old(self).active_guards@;
            if gs.len() > 0 {
                assert(guard_views(gs)[0] == gs[0]@);
                assert(guarded_names(self.guarded_scopes@, gs[0]@).contains(name@));
            }
            assert forall|n: Seq<char>| old(self).available(n) implies self.available(n) by {
                if !old(self).variables@.contains(n) {
                    let j = choose|j: int| 0 <= j < gs.len() && #[trigger] guarded_names(old(self).guarded_scopes@, gs[j]@).contains(n);
                    if gs.len() > 0 {
                        assert(guard_views(gs)[j] == gs[j]@);
                        assert(guarded_names(self.guarded_scopes@, gs[j]@).contains(n));
                    }
                }
            }
        }
        let n = name.unicode_len();
        if n > 0 && name.get_char(0) == '_' {
            let msg = cat3(
                "Variable name '",
                name,
                "' starts with '_', which is reserved for the Vox runtime; choose a name without the leading underscore.",
            );
            self.push_error(msg, Some(name));
            assert(!old(self).used_before_declaration(name@) ==> true);
        }
    }

    /// Where the paths that continue past an `If` meet: a name is available
    /// outright only if every continuing path declared it, and a guarded name
    /// under a guard if any path did. With no continuing path, `fallback`.
    pub fn merge_continuing_envs(&self, envs: &Vec<AnalysisEnv>, fallback: &AnalysisEnv) -> (r: AnalysisEnv)
        ensures
            envs@.len() == 0 ==> r.always@ == fallback.always@ && r.guarded@ == fallback.guarded@,
            envs@.len() > 0 ==> r.always@ == always_on_every_path(env_views(envs@)),
            envs@.len() > 0 ==> forall|g: Seq<char>| #![trigger guarded_names(r.guarded@, g)]
                guarded_names(r.guarded@, g) == guarded_on_any_path(env_views(envs@), g),
            envs@.len() > 0 ==> forall|g: Seq<char>| #![trigger r.guarded@.contains_key(g)]
                r.guarded@.contains_key(g) == some_path_has_guard(env_views(envs@), g),
    {
        if envs.len() == 0 {
            return fallback.copy();
        }
        let ghost views = env_views(envs@);
        let mut merged_always = envs[0].always.copy();
        let mut i: usize = 1;
        assert(views.take(1).len() == 1);
        while i < envs.len()
            invariant
                1 <= i <= envs@.len(),
                views == env_views(envs@),
                merged_always@ == always_on_every_path(views.take(i as int)),
            decreases envs@.len() - i,
        {
            merged_always.retain_in(&envs[i].always);
            assert(views.take(i + 1).drop_last() == views.take(i as int));
            i = i + 1;
        }
        assert(views.take(envs@.len() as int) == views);
        let mut merged_guarded = GuardTable::new();
        let mut k: usize = 0;
        while k < envs.len()
            invariant
                k <= envs@.len(),
                views == env_views(envs@),
                forall|g: Seq<char>| #![trigger guarded_names(merged_guarded@, g)]
                    guarded_names(merged_guarded@, g) == guarded_on_any_path(views.take(k as int), g),
                forall|g: Seq<char>| #![trigger merged_guarded@.contains_key(g)]
                    merged_guarded@.contains_key(g) == some_path_has_guard(views.take(k as int), g),
            decreases envs@.len() - k,
        {
            let env = &envs[k];
            let gs = env.guarded.guards();
            let mut j: usize = 0;
            while j < gs.len()
                invariant
                    k < envs@.len(),
                    j <= gs@.len(),
                    views == env_views(envs@),
                    *env == envs@[k as int],
                    forall|g: Seq<char>| env.guarded@.contains_key(g) <==> crate::names::views_of(gs@).contains(g),
                    forall|g: Seq<char>| #![trigger guarded_names(merged_guarded@, g)]
                        guarded_names(merged_guarded@, g) == guarded_on_any_path(views.take(k as int), g).union(
                            if crate::names::views_of(gs@).take(j as int).contains(g) {
                                guarded_names(env.guarded@, g)
                            } else {
                                Set::empty()
                            }),
                    forall|g: Seq<char>| #![trigger merged_guarded@.contains_key(g)]
                        merged_guarded@.contains_key(g) == (some_path_has_guard(views.take(k as int), g)
                            || crate::names::views_of(gs@).take(j as int).contains(g)),
                decreases gs@.len() - j,
            {
                let ghost before = merged_guarded@;
                let names = env.guarded.names_under(gs[j].as_str());
                merged_guarded.add_all(gs[j].as_str(), &names);
                proof {
                    crate::names::lemma_views_take_step(gs@, j as int);
                    let gj = gs@[j as int]@;
                    assert forall|g: Seq<char>| #![trigger guarded_names(merged_guarded@, g)]
                        guarded_names(merged_guarded@, g) == guarded_on_any_path(views.take(k as int), g).union(
                            if crate::names::views_of(gs@).take(j + 1).contains(g) {
                                guarded_names(env.guarded@, g)
                            } else {
                                Set::empty()
                            }) by {
                        assert(guarded_names(before, g) == guarded_on_any_path(views.take(k as int), g).union(
                            if crate::names::views_of(gs@).take(j as int).contains(g) {
                                guarded_names(env.guarded@, g)
                            } else {
                                Set::empty()
                            }));
                        if g == gj {
                            assert(guarded_names(merged_guarded@, g) =~= guarded_on_any_path(views.take(k as int), g).union(
                                guarded_names(env.guarded@, g)));
                        } else {
                            assert(guarded_names(merged_guarded@, g) == guarded_names(before, g));
                        }
                    }
                    assert forall|g: Seq<char>| #![trigger merged_guarded@.contains_key(g)]
                        merged_guarded@.contains_key(g) == (some_path_has_guard(views.take(k as int), g)
                            || crate::names::views_of(gs@).take(j + 1).contains(g)) by {
                        assert(before.contains_key(g) == (some_path_has_guard(views.take(k as int), g)
                            || crate::names::views_of(gs@).take(j as int).contains(g)));
                    }
                }
                j = j + 1;
            }
            proof {
                assert(crate::names::views_of(gs@).take(gs@.len() as int) == crate::names::views_of(gs@));
                let vk = views.take(k + 1);
                assert(vk.drop_last() == views.take(k as int));
                assert(vk.last() == (env.always@, env.guarded@));
                assert forall|g: Seq<char>| #![trigger guarded_names(merged_guarded@, g)]
                    guarded_names(merged_guarded@, g) == guarded_on_any_path(vk, g) by {
                    if !env.guarded@.contains_key(g) {
                        assert(guarded_names(env.guarded@, g) == Set::<Seq<char>>::empty());
                    }
                    assert(guarded_names(merged_guarded@, g) =~= guarded_on_any_path(vk, g));
                }
                assert forall|g: Seq<char>| #![trigger merged_guarded@.contains_key(g)]
                    merged_guarded@.contains_key(g) == some_path_has_guard(vk, g) by {
                    if some_path_has_guard(vk, g) {
                        let w = choose|w: int| 0 <= w < vk.len() && #[trigger] vk[w].1.contains_key(g);
                        if w < k {
                            assert(views.take(k as int)[w] == vk[w]);
                        }
                    }
                    if some_path_has_guard(views.take(k as int), g) {
                        let w = choose|w: int| 0 <= w < k && #[trigger] views.take(k as int)[w].1.contains_key(g);
                        assert(vk[w] == views.take(k as int)[w]);
                    }
                    if env.guarded@.contains_key(g) {
                        assert(vk[k as int].1.contains_key(g));
                    }
                }
            }
            k = k + 1;
        }
        assert(views.take(envs@.len() as int) == views);
        AnalysisEnv { always: merged_always, guarded: merged_guarded }
    }

    /// The guard key of a condition, when it has one.
    pub fn simple_guard_key(condition: &Expr) -> (r: Option<String>)
        ensures
            match r {
                Some(k) => guard_key(*condition) == Some(k@),
                None => guard_key(*condition) is None,
            },
        decreases condition,
    {
        match condition {
            Expr::Identifier(name) => Some(name.clone()),
            Expr::StringLit(name) => Some(name.clone()),
            Expr::UnaryOp { op: UnaryOperator::Not, operand } => {
                match Self::simple_guard_key(operand) {
                    Some(k) => Some(cat3("not (", k.as_str(), ")")),
                    None => None,
                }
            },
            Expr::BinaryOp { left, op, right } => {
                let connector = match op {
                    BinaryOperator::And => "and",
                    BinaryOperator::Or => "or",
                    _ => {
                        return None;
                    },
                };
                let left_key = match Self::simple_guard_key(left) {
                    Some(k) => k,
                    None => {
                        return None;
                    },
                };
                let right_key = match Self::simple_guard_key(right) {
                    Some(k) => k,
                    None => {
                        return None;
                    },
                };
                let mut key = cat5("(", left_key.as_str(), ") ", connector, " (");
                key.append(right_key.as_str());
                key.append(")");
                Some(key)
            },
            _ => None,
        }
    }

    /// Inside a block, `a boolean called ready is true.` makes `ready` a
    /// guard in force, and declares `ready` under itself.
    pub fn maybe_activate_true_guard(&mut self, name: &str, var_type: &Option<Type>, value: &Option<Expr>)
        ensures
            ({
                let activates = old(self).block_depth != 0
                    && (match var_type { Some(t) => *t == Type::Boolean, None => true })
                    && (match value { Some(Expr::BoolLit(b)) => *b, _ => false });
                &&& !activates ==> *final(self) == *old(self)
                &&& activates ==> {
                    &&& guard_views(final(self).active_guards@).contains(name@)
                    &&& old(self).active_guards@.len() <= final(self).active_guards@.len()
                    &&& forall|i: int| 0 <= i < old(self).active_guards@.len() ==> final(self).active_guards@[i]
                        == old(self).active_guards@[i]
                    &&& final(self).guarded_scopes@ == old(self).guarded_scopes@.insert(
                        name@, guarded_names(old(self).guarded_scopes@, name@).insert(name@))
                    &&& *final(self) == (Analyzer {
                        active_guards: final(self).active_guards,
                        guarded_scopes: final(self).guarded_scopes,
                        ..*old(self)
                    })
                }
            }),
    {
        if self.block_depth == 0 {
            return;
        }
        let is_bool_typed = match var_type {
            Some(Type::Boolean) => true,
            Some(_) => false,
            None => true,
        };
        let is_true = match value {
            Some(Expr::BoolLit(b)) => *b,
            _ => false,
        };
        if is_bool_typed && is_true {
            let mut present = false;
            let mut i: usize = 0;
            while i < self.active_guards.len()
                invariant
                    i <= self.active_guards@.len(),
                    present ==> guard_views(self.active_guards@).contains(name@),
                decreases self.active_guards@.len() - i,
            {
                if str_eq(self.active_guards[i].as_str(), name) {
                    present = true;
                    assert(guard_views(self.active_guards@)[i as int] == name@);
                }
                i = i + 1;
            }
            if !present {
                self.active_guards.push(String::from_str(name));
                assert(guard_views(self.active_guards@)[self.active_guards@.len() - 1] == name@);
            }
            let mut table = GuardTable::new();
            std::mem::swap(&mut table, &mut self.guarded_scopes);
            table.add(name, name);
            self.guarded_scopes = table;
        }
    }

    /// Whether a statement ends every path through it.
    #[verifier::loop_isolation(false)]
    pub fn statement_always_terminates(&self, stmt: &Statement) -> (r: bool)
        ensures
            r == stmt_terminates(*stmt),
        decreases stmt,
    {
        match stmt {
            Statement::Return { .. } | Statement::Exit { .. } => true,
            Statement::If { then_block, else_if_blocks, else_block, .. } => {
                if !self.block_always_terminates(then_block) {
                    return false;
                }
                let mut i: usize = 0;
                while i < else_if_blocks.len()
                    invariant
                        i <= else_if_blocks@.len(),
                        forall|j: int| 0 <= j < i ==> block_terminates((#[trigger] else_if_blocks@[j]).1@),
                    decreases else_if_blocks@.len() - i,
                {
                    if !self.block_always_terminates(&else_if_blocks[i].1) {
                        assert(!block_terminates(else_if_blocks@[i as int].1@));
                        return false;
                    }
                    i = i + 1;
                }
                match else_block {
                    Some(block) => self.block_always_terminates(block),
                    None => false,
                }
            },
            _ => false,
        }
    }

    /// Whether some statement of a block ends every path.
    pub fn block_always_terminates(&self, block: &Vec<Statement>) -> (r: bool)
        ensures
            r == block_terminates(block@),
        decreases block@,
    {
        let mut i: usize = 0;
        while i < block.len()
            invariant
                i <= block@.len(),
                forall|j: int| 0 <= j < i ==> !stmt_terminates(#[trigger] block@[j]),
            decreases block@.len() - i,
        {
            assert(decreases_to!(block@ => block@[i as int]));
            if self.statement_always_terminates(&block[i]) {
                return true;
            }
            i = i + 1;
        }
        false
    }

    pub fn is_buffer_variable(&self, name: &str) -> (r: bool)
        ensures
            r == self.buffer_variables@.contains(name@),
    {
        self.buffer_variables.contains(name)
    }

    pub fn is_list_variable(&self, name: &str) -> (r: bool)
        ensures
            r == self.list_variables@.contains(name@),
    {
        self.list_variables.contains(name)
    }

    pub fn is_map_variable(&self, name: &str) -> (r: bool)
        ensures
            r == self.map_variables@.contains(name@),
    {
        self.map_variables.contains(name)
    }

    /// A scalar variable holds a raw 64-bit value rather than a pointer or a
    /// handle: it is none of a buffer, list, map, file, timer or allocation.
    pub fn is_scalar_variable(&self, name: &str) -> (r: bool)
        ensures
            r == !(self.buffer_variables@.contains(name@) || self.list_variables@.contains(name@)
                || self.map_variables@.contains(name@) || self.file_variables@.contains(name@)
                || self.timer_variables@.contains(name@) || self.allocated_variables@.contains(name@)),
    {
        !self.is_buffer_variable(name) && !self.is_list_variable(name) && !self.is_map_variable(name)
            && !self.file_variables.contains(name) && !self.timer_variables.contains(name)
            && !self.allocated_variables.contains(name)
    }

    /// The English name of a `for each` collection's kind when it provably
    /// cannot be walked as a list, a range or a buffer's bytes.
    pub fn non_collection_kind(&self, collection: &Expr) -> (r: Option<&'static str>)
        ensures
            r == non_collection_kind_of(*self, *collection),
    {
        match collection {
            Expr::IntegerLit(_) => Some("number"),
            Expr::FloatLit(_) => Some("float"),
            Expr::BoolLit(_) => Some("boolean"),
            Expr::StringLit(_) | Expr::FormatString { .. } => Some("text"),
            Expr::MapLit { .. } => Some("map"),
            Expr::Identifier(name) => {
                if !self.is_variable_available(name.as_str()) {
                    return None;
                }
                if self.is_buffer_variable(name.as_str()) {
                    return None;
                }
                if self.is_map_variable(name.as_str()) {
                    return Some("map");
                }
                if self.is_list_variable(name.as_str()) || self.value_typed_names.contains(name.as_str()) {
                    return None;
                }
                match self.scalar_types.get(name.as_str()) {
                    Some(Type::Integer) => Some("number"),
                    Some(Type::Float) => Some("float"),
                    Some(Type::Boolean) => Some("boolean"),
                    Some(Type::Text) => Some("text"),
                    _ => None,
                }
            },
            _ => None,
        }
    }

    /// Refuse a `for each` collection that provably is not one, naming its
    /// kind and the accessor that does work.
    pub fn check_loop_collection(&mut self, variable: &str, collection: &Expr)
        ensures
            match non_collection_kind_of(*old(self), *collection) {
                None => *final(self) == *old(self),
                Some(kind) => {
                    &&& final(self).same_but_errors(old(self))
                    &&& final(self).errors@ == old(self).errors@.push(final(self).errors@.last())
                    &&& final(self).errors@.last().message@ == "Loop collection must be a list: "@
                        + loop_subject(kind@, collection_name(*collection))
                    &&& final(self).errors@.last().hint matches Some(h) && h@ == loop_hint(
                        kind@,
                        collection_name(*collection),
                    )
                },
            },
    {
        let kind = match self.non_collection_kind(collection) {
            None => {
                return;
            },
            Some(k) => k,
        };
        let is_text = str_eq(kind, "text");
        let is_map = str_eq(kind, "map");
        proof {
            reveal_strlit("text");
            reveal_strlit("map");
        }
        let phrase = if is_text {
            String::from_str("text")
        } else {
            cat2("a ", kind)
        };
        let hint = match collection {
            Expr::Identifier(name) => {
                if is_map {
                    let mut h = cat5(name.as_str(), " is a map - iterate `", name.as_str(), "'s keys` or `", name.as_str());
                    h.append("'s values`");
                    h
                } else {
                    cat4(
                        name.as_str(),
                        " is ",
                        phrase.as_str(),
                        " - `each ... from` walks a list, a range, a buffer's bytes, or `arguments's all`",
                    )
                }
            },
            _ => {
                if is_map {
                    String::from_str("a map is iterated through its `'s keys` or `'s values`")
                } else {
                    String::from_str(
                        "`each ... from` walks a list, a range, a buffer's bytes, or `arguments's all`",
                    )
                }
            },
        };
        let subject = match collection {
            Expr::Identifier(name) => name.clone(),
            _ => phrase,
        };
        self.push_error_with_hint_at(cat2("Loop collection must be a list: ", subject.as_str()), None, Some(hint));
    }
}

/// The patterns a symbol's location is looked for by, in preference order:
/// the name interpolated into a text (`{name`), the name written as a text
/// literal (`"name"`), then the bare name.
pub fn symbol_patterns(symbol: &str) -> (r: [String; 3])
    ensures
        r@[0]@ == "{"@ + symbol@,
        r@[1]@ == "\""@ + symbol@ + "\""@,
        r@[2]@ == symbol@,
{
    [cat2("{", symbol), cat3("\"", symbol, "\""), String::from_str(symbol)]
}

} // verus!
