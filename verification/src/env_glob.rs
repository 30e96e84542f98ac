//! Patterns over the names of environment variables.
use vstd::prelude::*;
use vstd::string::*;
use crate::model::views;
use crate::text::{replace_all, replaced};

verus! {

/// The regular expression for an environment pattern: every `*` stands for
/// a run of capitals, digits and `_`, and the whole name has to fit.
pub open spec fn glob_expression(glob: Seq<char>) -> Seq<char> {
    "^"@ + replaced(glob, "*"@, "[A-Z0-9_]+"@) + "$"@
}

/// Whether `expression` is a regular expression that the library accepts.
pub uninterp spec fn regex_compiles(expression: Seq<char>) -> bool;

/// Whether the regular expression `expression` matches somewhere in `text`.
pub uninterp spec fn regex_matches(expression: Seq<char>, text: Seq<char>) -> bool;

/// `regex::Regex::new`, then `regex::Regex::is_match`. The first returns an
/// error for an expression that is invalid or too large, and then the result
/// is `None`. Else the second says whether the expression matches anywhere in
/// `text`. Both results are named: each depends on the texts alone.
#[verifier::external_body]
pub(crate) fn match_expression(expression: &str, text: &str) -> (r: Option<bool>)
    ensures
        match r {
            Some(b) => regex_compiles(expression@) && b == regex_matches(expression@, text@),
            None => !regex_compiles(expression@),
        },
{
    match regex::Regex::new(expression) {
        Ok(re) => Some(re.is_match(text)),
        Err(_) => None,
    }
}

/// The names among `names` that `expression` matches, in order.
pub open spec fn matching_names(names: Seq<Seq<char>>, expression: Seq<char>) -> Seq<Seq<char>>
    decreases names.len(),
{
    if names.len() == 0 {
        seq![]
    } else if regex_matches(expression, names.last()) {
        matching_names(names.drop_last(), expression).push(names.last())
    } else {
        matching_names(names.drop_last(), expression)
    }
}

/// Writes the regular expression for an environment pattern.
pub fn glob_to_expression(glob: &str) -> (r: String)
    ensures
        r@ == glob_expression(glob@),
{
    proof {
        reveal_strlit("*");
    }
    let mut out = String::from_str("^");
    let body = replace_all(glob, "*", "[A-Z0-9_]+");
    out.append(body.as_str());
    out.append("$");
    out
}

/// Whether the environment pattern `glob` makes a regular expression.
pub fn is_env_pattern(glob: &str) -> (ok: bool)
    ensures
        ok == regex_compiles(glob_expression(glob@)),
{
    let expression = glob_to_expression(glob);
    match_expression(expression.as_str(), "").is_some()
}

/// Appends to `found` the names that the environment pattern `glob` matches,
/// in the order of `names`. Returns `false`, with `found` unchanged, where
/// the pattern does not make a regular expression.
pub fn collect_matching(found: &mut Vec<String>, names: &Vec<String>, glob: &str) -> (ok: bool)
    ensures
        ok == regex_compiles(glob_expression(glob@)),
        ok ==> views(final(found)@) == views(old(found)@) + matching_names(
            views(names@),
            glob_expression(glob@),
        ),
        !ok ==> *final(found) == *old(found),
{
    let expression = glob_to_expression(glob);
    if match_expression(expression.as_str(), "").is_none() {
        return false;
    }
    let mut i: usize = 0;
    proof {
        assert(views(names@).take(0) =~= Seq::<Seq<char>>::empty());
        assert(views(found@) + Seq::<Seq<char>>::empty() =~= views(found@));
    }
    while i < names.len()
        invariant
            i <= names.len(),
            expression@ == glob_expression(glob@),
            regex_compiles(expression@),
            views(found@) == views(old(found)@) + matching_names(
                views(names@).take(i as int),
                expression@,
            ),
        decreases names.len() - i,
    {
        let ghost all = views(names@);
        let ghost before = views(found@);
        proof {
            assert(all.take(i + 1).drop_last() =~= all.take(i as int));
            assert(all.take(i + 1).last() == names[i as int]@);
        }
        match match_expression(expression.as_str(), names[i].as_str()) {
            Some(true) => {
                found.push(names[i].clone());
                assert(views(found@) =~= before.push(names[i as int]@));
                assert(views(found@) =~= views(old(found)@) + matching_names(
                    all.take(i + 1),
                    expression@,
                ));
            },
            _ => {},
        }
        i += 1;
    }
    assert(views(names@).take(i as int) =~= views(names@));
    true
}

} // verus!
