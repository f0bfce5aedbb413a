//! What the package manager is asked and how its answers are read.

use vstd::prelude::*;
use vstd::string::*;
use crate::error::ToolError;
use crate::text::{contains_text, occurs_in, Text};

verus! {

/// The characters that start a version constraint in a dependency.
pub open spec fn is_constraint_operator(c: char) -> bool {
    c == '>' || c == '=' || c == '<'
}

/// No character of `s` starts a version constraint.
pub open spec fn is_bare(s: Text) -> bool {
    forall|i: int| 0 <= i < s.len() ==> !is_constraint_operator(#[trigger] s[i])
}

/// The position of the first constraint operator in `s`, or the length of
/// `s` where it holds none.
pub open spec fn constraint_start(s: Text) -> int
    decreases s.len(),
{
    if s.len() == 0 || is_constraint_operator(s[0]) {
        0
    } else {
        1 + constraint_start(s.drop_first())
    }
}

/// A dependency without its version constraint: everything before the first
/// constraint operator.
pub open spec fn bare_name(s: Text) -> Text {
    s.take(constraint_start(s))
}

/// The first constraint operator stands somewhere in the string, or at
/// its end.
pub proof fn lemma_constraint_start_bounds(s: Text)
    ensures
        0 <= constraint_start(s) <= s.len(),
    decreases s.len(),
{
    if !(s.len() == 0 || is_constraint_operator(s[0])) {
        lemma_constraint_start_bounds(s.drop_first());
    }
}

/// Stripping a bare name followed by a constraint operator and anything
/// else gives back the bare name.
pub proof fn lemma_strip_removes_constraint(base: Text, operator: char, version: Text)
    requires
        is_bare(base),
        is_constraint_operator(operator),
    ensures
        bare_name(base + seq![operator] + version) == base,
    decreases base.len(),
{
    let s = base + seq![operator] + version;
    if base.len() == 0 {
        assert(s[0] == operator);
        assert(s.take(0) =~= base);
    } else {
        assert(s[0] == base[0]);
        let rest = base.drop_first();
        assert(is_bare(rest)) by {
            assert forall|i: int| 0 <= i < rest.len() implies !is_constraint_operator(
                #[trigger] rest[i],
            ) by {
                assert(rest[i] == base[i + 1]);
            }
        }
        assert(s.drop_first() =~= rest + seq![operator] + version);
        lemma_strip_removes_constraint(rest, operator, version);
        lemma_constraint_start_bounds(s.drop_first());
        assert(constraint_start(s) == 1 + constraint_start(s.drop_first()));
        assert(s.drop_first().take(constraint_start(s.drop_first())) == rest);
        assert(s.take(constraint_start(s)) =~= base);
    }
}

/// Stripping a name that holds no constraint operator changes nothing.
pub proof fn lemma_strip_keeps_bare(s: Text)
    requires
        is_bare(s),
    ensures
        bare_name(s) == s,
    decreases s.len(),
{
    if s.len() == 0 {
        assert(s.take(0) =~= s);
    } else {
        let rest = s.drop_first();
        assert(is_bare(rest)) by {
            assert forall|i: int| 0 <= i < rest.len() implies !is_constraint_operator(
                #[trigger] rest[i],
            ) by {
                assert(rest[i] == s[i + 1]);
            }
        }
        lemma_strip_keeps_bare(rest);
        lemma_constraint_start_bounds(rest);
        assert(rest.take(constraint_start(rest)) == rest);
        assert(constraint_start(rest) == rest.len()) by {
            assert(rest.take(constraint_start(rest)).len() == constraint_start(rest));
        }
        assert(s.take(constraint_start(s)) =~= s);
    }
}

/// The name of a dependency without its version constraint.
pub fn strip_package_version<'a>(package: &'a str) -> (name: &'a str)
    ensures
        name@ == bare_name(package@),
{
    let n = package.unicode_len();
    let mut i: usize = 0;
    let mut found = false;
    assert(package@.skip(0) =~= package@);
    while i < n && !found
        invariant
            n == package@.len(),
            i <= n,
            constraint_start(package@) == i + constraint_start(package@.skip(i as int)),
            found ==> i < n && is_constraint_operator(package@[i as int]),
        decreases n - i + if found { 0int } else { 1int },
    {
        let c = package.get_char(i);
        if c == '>' || c == '=' || c == '<' {
            found = true;
        } else {
            proof {
                let tail = package@.skip(i as int);
                assert(tail[0] == package@[i as int]);
                assert(tail.drop_first() =~= package@.skip(i + 1));
            }
            i += 1;
        }
    }
    proof {
        let tail = package@.skip(i as int);
        if found {
            assert(tail[0] == package@[i as int]);
        } else {
            assert(tail.len() == 0);
        }
        assert(constraint_start(tail) == 0);
    }
    package.substring_char(0, i)
}

/// What a query for one package says, from whether the query succeeded
/// and what it printed: the package is installed where it succeeded, it
/// is not where the output says "not found", and anything else is a
/// failure of the query.
pub fn query_outcome(success: bool, stdout: &str) -> (installed: Result<bool, ToolError>)
    ensures
        installed == if success {
            Ok::<bool, ToolError>(true)
        } else if occurs_in("not found"@, stdout@) {
            Ok::<bool, ToolError>(false)
        } else {
            Err::<bool, ToolError>(ToolError::Query)
        },
{
    if success {
        Ok(true)
    } else if contains_text(stdout, "not found") {
        Ok(false)
    } else {
        Err(ToolError::Query)
    }
}

} // verus!
