//! Decides from a symbol's name alone whether it is worth keeping.

use crate::text::{
    has_infix, has_prefix, holds_pair, lemma_infix_of_two, pair_at, starts_with,
};
use vstd::prelude::*;

verus! {

/// A name in the C style: it starts with `@` or with `_`.
pub open spec fn c_name(name: Seq<char>) -> bool {
    has_prefix(name, seq!['@']) || has_prefix(name, seq!['_'])
}

/// A name in the C++ style: it starts with `_Z` (Itanium mangling), with `?`
/// (MSVC mangling) or with `g_` (a global), or it holds `::`.
pub open spec fn cxx_name(name: Seq<char>) -> bool {
    ||| has_prefix(name, seq!['_', 'Z'])
    ||| has_prefix(name, seq!['?'])
    ||| has_prefix(name, seq!['g', '_'])
    ||| has_infix(name, seq![':', ':'])
}

/// A name that is kept: one in the C++ style or in the C style.
pub open spec fn keep_name(name: Seq<char>) -> bool {
    cxx_name(name) || c_name(name)
}

/// The names that are kept, character by character: those that start with
/// `@`, `_` or `?`, those that start with `g_`, and those that hold `::`.
/// A name that starts with `_Z` starts with `_`, so that rule adds none.
pub proof fn lemma_kept_names(name: Seq<char>)
    ensures
        keep_name(name) <==> {
            ||| name.len() >= 1 && (name[0] == '@' || name[0] == '_' || name[0] == '?')
            ||| name.len() >= 2 && name[0] == 'g' && name[1] == '_'
            ||| exists|i: int| pair_at(name, i, ':', ':')
        },
{
    if name.len() >= 1 {
        let head = name.subrange(0, 1);
        assert(head[0] == name[0]);
        assert(name[0] == '@' ==> head =~= seq!['@']);
        assert(name[0] == '_' ==> head =~= seq!['_']);
        assert(name[0] == '?' ==> head =~= seq!['?']);
    }
    if name.len() >= 2 {
        let head = name.subrange(0, 2);
        assert(head[0] == name[0] && head[1] == name[1]);
        assert(name[0] == 'g' && name[1] == '_' ==> head =~= seq!['g', '_']);
    }
    lemma_infix_of_two(name, ':', ':');
}

/// Whether `name` looks like a C symbol.
pub fn is_c_name(name: &str) -> (keep: bool)
    ensures
        keep == c_name(name@),
{
    proof {
        reveal_strlit("@");
        reveal_strlit("_");
        assert("@"@ =~= seq!['@']);
        assert("_"@ =~= seq!['_']);
    }
    starts_with(name, "@") || starts_with(name, "_")
}

/// Whether `name` looks like a C++ symbol, mangled or not.
pub fn is_cxx_name(name: &str) -> (keep: bool)
    ensures
        keep == cxx_name(name@),
{
    proof {
        reveal_strlit("_Z");
        reveal_strlit("?");
        reveal_strlit("g_");
        assert("_Z"@ =~= seq!['_', 'Z']);
        assert("?"@ =~= seq!['?']);
        assert("g_"@ =~= seq!['g', '_']);
    }
    starts_with(name, "_Z") || starts_with(name, "?") || starts_with(name, "g_") || holds_pair(
        name,
        ':',
        ':',
    )
}

/// Whether a symbol of this name is kept: it is if the name is in the C++
/// style or in the C style.
pub fn should_dump(name: &str) -> (keep: bool)
    ensures
        keep == keep_name(name@),
{
    is_cxx_name(name) || is_c_name(name)
}

} // verus!
