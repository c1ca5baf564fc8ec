//! Which names a statement list declares on every control-flow path: the
//! names that behave as globals.
use vstd::prelude::*;
use crate::ast::{Statement, Type};
use crate::names::{NameMap, NameSet};

verus! {

/// The kind of storage a declaration gives a name.
#[derive(PartialEq, Eq, Structural, Clone, Copy, Debug)]
pub enum DeclKind {
    Buffer,
    List,
    Dict,
    File,
    Plain,
}

/// The kind a declared type gives a name.
pub open spec fn kind_of_declared(t: Option<Type>) -> DeclKind {
    match t {
        Some(Type::Buffer) => DeclKind::Buffer,
        Some(Type::List(_)) => DeclKind::List,
        Some(Type::Dict(_)) => DeclKind::Dict,
        _ => DeclKind::Plain,
    }
}

/// The name a single statement declares, and its kind.
pub open spec fn stmt_decl(s: Statement) -> Option<(Seq<char>, DeclKind)> {
    match s {
        Statement::VarDecl { name, var_type, .. } => Some((name@, kind_of_declared(var_type))),
        Statement::BufferDecl { name, .. } => Some((name@, DeclKind::Buffer)),
        Statement::FileOpen { name, .. } => Some((name@, DeclKind::File)),
        _ => None,
    }
}

/// The names a statement declares on every path through it: its own
/// declaration, or for an `If` with an `otherwise`, the names every branch
/// declares.
pub open spec fn stmt_definite(s: Statement) -> Set<Seq<char>>
    decreases s,
{
    match s {
        Statement::If { then_block, else_if_blocks, else_block: Some(else_block), .. } => {
            Set::new(
                |n: Seq<char>|
                    block_definite(then_block@).contains(n) && block_definite(else_block@).contains(n)
                        && forall|i: int|
                        0 <= i < else_if_blocks@.len() ==> block_definite(
                            (#[trigger] else_if_blocks@[i]).1@,
                        ).contains(n),
            )
        },
        _ => match stmt_decl(s) {
            Some((n, _)) => set![n],
            None => Set::empty(),
        },
    }
}

/// The names a statement list declares on every path through it.
pub open spec fn block_definite(b: Seq<Statement>) -> Set<Seq<char>>
    decreases b,
{
    Set::new(|n: Seq<char>| exists|i: int| 0 <= i < b.len() && stmt_definite(#[trigger] b[i]).contains(n))
}

fn kind_of_type(t: &Option<Type>) -> (k: DeclKind)
    ensures
        k == kind_of_declared(*t),
{
    match t {
        Some(Type::Buffer) => DeclKind::Buffer,
        Some(Type::List(_)) => DeclKind::List,
        Some(Type::Dict(_)) => DeclKind::Dict,
        _ => DeclKind::Plain,
    }
}

/// Record that `name` is declared with `kind`: a name two declarations
/// disagree on the kind of leaves the map for the conflicted set, for good.
fn note_decl(map: &mut NameMap<DeclKind>, conflicted: &mut NameSet, name: &str, kind: DeclKind)
    ensures
        final(map)@.dom().union(final(conflicted)@) == old(map)@.dom().union(old(conflicted)@).insert(name@),
        old(map)@.dom().disjoint(old(conflicted)@) ==> final(map)@.dom().disjoint(final(conflicted)@),
{
    if conflicted.contains(name) {
        assert(old(map)@.dom().union(old(conflicted)@).insert(name@) =~= old(map)@.dom().union(old(conflicted)@));
        return;
    }
    let clash = match map.get(name) {
        Some(k) => *k != kind,
        None => false,
    };
    if clash {
        map.remove(name);
        conflicted.insert(String::from_str(name));
    } else {
        map.insert(String::from_str(name), kind);
    }
    assert(final(map)@.dom().union(final(conflicted)@) =~= old(map)@.dom().union(old(conflicted)@).insert(name@));
}

/// The names a statement declares on every path through it.
#[verifier::loop_isolation(false)]
fn definite_names_of_stmt(s: &Statement) -> (r: NameSet)
    ensures
        r@ == stmt_definite(*s),
    decreases s,
{
    match s {
        Statement::If { then_block, else_if_blocks, else_block: Some(else_block), .. } => {
            let mut names = collect_definite_names(then_block);
            let else_names = collect_definite_names(else_block);
            names.retain_in(&else_names);
            let mut i: usize = 0;
            while i < else_if_blocks.len()
                invariant
                    i <= else_if_blocks@.len(),
                    names@ == Set::new(
                        |n: Seq<char>|
                            block_definite(then_block@).contains(n) && block_definite(else_block@).contains(n)
                                && forall|j: int|
                                0 <= j < i ==> block_definite((#[trigger] else_if_blocks@[j]).1@).contains(n),
                    ),
                decreases else_if_blocks@.len() - i,
            {
                let branch = collect_definite_names(&else_if_blocks[i].1);
                names.retain_in(&branch);
                assert(names@ =~= Set::new(
                    |n: Seq<char>|
                        block_definite(then_block@).contains(n) && block_definite(else_block@).contains(n)
                            && forall|j: int|
                            0 <= j < i + 1 ==> block_definite((#[trigger] else_if_blocks@[j]).1@).contains(n),
                )) by {
                    assert forall|n: Seq<char>| names@.contains(n) implies (forall|j: int|
                        0 <= j < i + 1 ==> block_definite((#[trigger] else_if_blocks@[j]).1@).contains(n)) by {
                        assert forall|j: int| 0 <= j < i + 1 implies block_definite(
                            (#[trigger] else_if_blocks@[j]).1@).contains(n) by {
                            if j == i {
                                assert(branch@.contains(n));
                            }
                        }
                    }
                }
                i = i + 1;
            }
            names
        },
        Statement::VarDecl { name, .. } | Statement::BufferDecl { name, .. } | Statement::FileOpen {
            name,
            ..
        } => {
            let mut names = NameSet::new();
            names.insert(name.clone());
            assert(names@ =~= set![name@]);
            names
        },
        _ => {
            let names = NameSet::new();
            assert(names@ =~= stmt_definite(*s));
            names
        },
    }
}

/// The names `stmts` declares on every control-flow path.
pub fn collect_definite_names(stmts: &Vec<Statement>) -> (r: NameSet)
    ensures
        r@ == block_definite(stmts@),
    decreases stmts@,
{
    let mut names = NameSet::new();
    let mut i: usize = 0;
    while i < stmts.len()
        invariant
            i <= stmts@.len(),
            names@ == Set::new(
                |n: Seq<char>| exists|j: int| 0 <= j < i && stmt_definite(#[trigger] stmts@[j]).contains(n),
            ),
        decreases stmts@.len() - i,
    {
        let more = definite_names_of_stmt(&stmts[i]);
        names.extend(&more);
        assert(names@ =~= Set::new(
            |n: Seq<char>| exists|j: int| 0 <= j < i + 1 && stmt_definite(#[trigger] stmts@[j]).contains(n),
        )) by {
            assert forall|n: Seq<char>| names@.contains(n) implies exists|j: int|
                0 <= j < i + 1 && stmt_definite(#[trigger] stmts@[j]).contains(n) by {
                if more@.contains(n) {
                    assert(stmt_definite(stmts@[i as int]).contains(n));
                }
            }
        }
        i = i + 1;
    }
    assert(names@ =~= block_definite(stmts@));
    names
}

/// Note every declaration `stmts` makes, on any path, of a name in `keep`.
#[verifier::loop_isolation(false)]
fn note_kinds(stmts: &Vec<Statement>, keep: &NameSet, map: &mut NameMap<DeclKind>, conflicted: &mut NameSet)
    requires
        old(map)@.dom().union(old(conflicted)@).subset_of(keep@),
        old(map)@.dom().disjoint(old(conflicted)@),
    ensures
        final(map)@.dom().union(final(conflicted)@).subset_of(keep@),
        final(map)@.dom().disjoint(final(conflicted)@),
        old(map)@.dom().union(old(conflicted)@).subset_of(final(map)@.dom().union(final(conflicted)@)),
    decreases stmts@,
{
    let mut i: usize = 0;
    while i < stmts.len()
        invariant
            i <= stmts@.len(),
            map@.dom().union(conflicted@).subset_of(keep@),
            map@.dom().disjoint(conflicted@),
            old(map)@.dom().union(old(conflicted)@).subset_of(map@.dom().union(conflicted@)),
        decreases stmts@.len() - i,
    {
        assert(decreases_to!(stmts@ => stmts@[i as int]));
        match &stmts[i] {
            Statement::VarDecl { name, var_type, .. } => {
                if keep.contains(name.as_str()) {
                    note_decl(map, conflicted, name.as_str(), kind_of_type(var_type));
                }
            },
            Statement::BufferDecl { name, .. } => {
                if keep.contains(name.as_str()) {
                    note_decl(map, conflicted, name.as_str(), DeclKind::Buffer);
                }
            },
            Statement::FileOpen { name, .. } => {
                if keep.contains(name.as_str()) {
                    note_decl(map, conflicted, name.as_str(), DeclKind::File);
                }
            },
            Statement::If { then_block, else_if_blocks, else_block: Some(else_block), .. } => {
                note_kinds(then_block, keep, map, conflicted);
                let mut j: usize = 0;
                while j < else_if_blocks.len()
                    invariant
                        j <= else_if_blocks@.len(),
                        map@.dom().union(conflicted@).subset_of(keep@),
                        map@.dom().disjoint(conflicted@),
                        old(map)@.dom().union(old(conflicted)@).subset_of(map@.dom().union(conflicted@)),
                    decreases else_if_blocks@.len() - j,
                {
                    note_kinds(&else_if_blocks[j].1, keep, map, conflicted);
                    j = j + 1;
                }
                note_kinds(else_block, keep, map, conflicted);
            },
            _ => {},
        }
        i = i + 1;
    }
}

/// The names `stmts` declares on every control-flow path, with the kind of
/// storage their declarations give them, and separately the names two
/// declarations disagree on the kind of. Together they are exactly the
/// definite names.
pub fn collect_definite_decls(stmts: &Vec<Statement>) -> (r: (NameMap<DeclKind>, NameSet))
    ensures
        r.0@.dom().union(r.1@) == block_definite(stmts@),
        r.0@.dom().disjoint(r.1@),
{
    let definite = collect_definite_names(stmts);
    let mut map: NameMap<DeclKind> = NameMap::new();
    let mut conflicted = NameSet::new();
    assert(map@.dom().union(conflicted@) =~= Set::<Seq<char>>::empty());
    note_kinds(stmts, &definite, &mut map, &mut conflicted);
    // A definite name whose declaration the walk did not see is plain.
    let names = definite.to_vec();
    let mut i: usize = 0;
    while i < names.len()
        invariant
            i <= names@.len(),
            forall|n: Seq<char>| definite@.contains(n) <==> crate::names::views_of(names@).contains(n),
            map@.dom().disjoint(conflicted@),
            map@.dom().union(conflicted@).subset_of(definite@),
            forall|n: Seq<char>|
                crate::names::views_of(names@).take(i as int).contains(n) ==> map@.dom().union(conflicted@).contains(n),
        decreases names@.len() - i,
    {
        let ghost before = map@.dom().union(conflicted@);
        if !map.contains_key(names[i].as_str()) && !conflicted.contains(names[i].as_str()) {
            map.insert(names[i].clone(), DeclKind::Plain);
        }
        proof {
            crate::names::lemma_views_take_step(names@, i as int);
            assert(crate::names::views_of(names@)[i as int] == names@[i as int]@);
            assert(before.subset_of(map@.dom().union(conflicted@)));
            assert(map@.dom().union(conflicted@).contains(names@[i as int]@));
            assert forall|n: Seq<char>|
                crate::names::views_of(names@).take(i + 1).contains(n) implies map@.dom().union(conflicted@).contains(n) by {
                if n != names@[i as int]@ {
                    assert(crate::names::views_of(names@).take(i as int).contains(n));
                    assert(before.contains(n));
                }
            }
        }
        i = i + 1;
    }
    assert(crate::names::views_of(names@).take(names@.len() as int) == crate::names::views_of(names@));
    assert(map@.dom().union(conflicted@) =~= block_definite(stmts@));
    (map, conflicted)
}

} // verus!
