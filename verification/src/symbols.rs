//! Assembly symbols for the names an author writes.
use vstd::prelude::*;
use crate::text::cat5;

verus! {

/// Whether a character may stand in an assembly symbol as it is.
pub open spec fn symbol_char(c: char) -> bool {
    ('a' <= c && c <= 'z') || ('A' <= c && c <= 'Z') || ('0' <= c && c <= '9') || c == '_'
}

/// A name as an assembly symbol: every character that may not stand in a
/// symbol becomes `_`.
pub open spec fn mangled(s: Seq<char>) -> Seq<char> {
    s.map_values(|c: char| if symbol_char(c) { c } else { '_' })
}

/// The label a function defined in this compilation is emitted under:
/// `<lib>_<ver>_<func>` in a shared library with an identity, else the
/// plain mangled name.
pub open spec fn function_label_of(shared: bool, lib: Option<(Seq<char>, Seq<char>)>, name: Seq<char>) -> Seq<char> {
    match lib {
        Some((l, v)) if shared => mangled(l) + "_"@ + mangled(v) + "_"@ + mangled(name),
        _ => mangled(name),
    }
}

/// The view of an optional library identity.
pub open spec fn identity_view(lib: Option<&(String, String)>) -> Option<(Seq<char>, Seq<char>)> {
    match lib {
        Some(p) => Some((p.0@, p.1@)),
        None => None,
    }
}

/// A name as an assembly symbol.
pub fn mangle_symbol(name: &str) -> (r: String)
    ensures
        r@ == mangled(name@),
{
    let n = name.unicode_len();
    let mut out = String::from_str("");
    proof {
        reveal_strlit("");
        reveal_strlit("_");
    }
    let mut i: usize = 0;
    while i < n
        invariant
            n == name@.len(),
            i <= n,
            out@ == mangled(name@.take(i as int)),
        decreases n - i,
    {
        let c = name.get_char(i);
        let keep = ('a' <= c && c <= 'z') || ('A' <= c && c <= 'Z') || ('0' <= c && c <= '9') || c == '_';
        if keep {
            let piece = name.substring_char(i, i + 1);
            assert(piece@ == seq![c]);
            out.append(piece);
        } else {
            proof {
                reveal_strlit("_");
            }
            out.append("_");
        }
        assert(name@.take(i + 1) == name@.take(i as int).push(c));
        assert(mangled(name@.take(i + 1)) =~= mangled(name@.take(i as int)).push(
            if symbol_char(c) { c } else { '_' },
        ));
        i = i + 1;
    }
    assert(name@.take(n as int) == name@);
    out
}

/// The label a function defined in this compilation is emitted under.
pub fn make_function_label(shared: bool, lib: Option<&(String, String)>, name: &str) -> (r: String)
    ensures
        r@ == function_label_of(shared, identity_view(lib), name@),
{
    match lib {
        Some((l, v)) if shared => {
            let ml = mangle_symbol(l.as_str());
            let mv = mangle_symbol(v.as_str());
            let mn = mangle_symbol(name);
            cat5(ml.as_str(), "_", mv.as_str(), "_", mn.as_str())
        },
        _ => mangle_symbol(name),
    }
}

} // verus!
