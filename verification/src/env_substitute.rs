//! Environment references `${NAME}` filled in from a task's own
//! environment.
use vstd::prelude::*;
use vstd::string::*;
use crate::model::{find_entry, lookup, views, Entry, EntryView};
use crate::patterns::{env_reference_at, match_env_reference_at};

verus! {

/// What stands for the reference that spans `at` to `end`: the value that
/// `env` declares for its name, or the reference itself where it declares
/// none.
pub open spec fn reference_value(s: Seq<char>, env: Seq<EntryView>, at: int, end: int) -> Seq<
    char,
> {
    match lookup(env, s.subrange(at + 2, end - 1)) {
        Some(v) => v,
        None => s.subrange(at, end),
    }
}

/// `s` from `at` on, with every environment reference filled in. What was
/// filled in is not read again.
pub open spec fn substituted_from(s: Seq<char>, env: Seq<EntryView>, at: int) -> Seq<char>
    decreases s.len() - at,
{
    if at < 0 || at >= s.len() {
        seq![]
    } else {
        match env_reference_at(s, at) {
            Some(end) => reference_value(s, env, at, end) + substituted_from(s, env, end),
            None => seq![s[at]] + substituted_from(s, env, at + 1),
        }
    }
}

/// `s` with every environment reference filled in from `env`.
pub open spec fn substituted(s: Seq<char>, env: Seq<EntryView>) -> Seq<char> {
    substituted_from(s, env, 0)
}

/// A text without `$` holds no environment reference and stays as it is.
pub proof fn lemma_substituted_plain(s: Seq<char>, env: Seq<EntryView>, at: int)
    requires
        0 <= at <= s.len(),
        forall|k: int| 0 <= k < s.len() ==> s[k] != '$',
    ensures
        substituted_from(s, env, at) == s.subrange(at, s.len() as int),
    decreases s.len() - at,
{
    if at < s.len() {
        lemma_substituted_plain(s, env, at + 1);
        assert(seq![s[at]] + s.subrange(at + 1, s.len() as int) =~= s.subrange(
            at,
            s.len() as int,
        ));
    } else {
        assert(s.subrange(at, s.len() as int) =~= Seq::<char>::empty());
    }
}

/// Fills in every environment reference of `value` from `env`. A reference
/// to a name that `env` does not declare stays as it is.
pub fn substitute_env_var(value: &str, env: &Vec<Entry>) -> (r: String)
    ensures
        r@ == substituted(value@, views(env@)),
{
    let n = value.unicode_len();
    let mut out = String::new();
    let mut i: usize = 0;
    assert(out@ + substituted(value@, views(env@)) =~= substituted(value@, views(env@)));
    while i < n
        invariant
            n == value@.len(),
            i <= n,
            out@ + substituted_from(value@, views(env@), i as int) == substituted(
                value@,
                views(env@),
            ),
        decreases n - i,
    {
        let ghost before = out@;
        match match_env_reference_at(value, i) {
            Some(end) => {
                let name = value.substring_char(i + 2, end - 1);
                match find_entry(env, name) {
                    Some(v) => {
                        out.append(v.as_str());
                    },
                    None => {
                        out.append(value.substring_char(i, end));
                    },
                }
                proof {
                    let piece = reference_value(value@, views(env@), i as int, end as int);
                    let rest = substituted_from(value@, views(env@), end as int);
                    assert(out@ == before + piece);
                    assert((before + piece) + rest =~= before + (piece + rest));
                }
                i = end;
            },
            None => {
                out.append(value.substring_char(i, i + 1));
                proof {
                    let piece = seq![value@[i as int]];
                    let rest = substituted_from(value@, views(env@), i + 1);
                    assert(value@.subrange(i as int, i + 1) =~= piece);
                    assert((before + piece) + rest =~= before + (piece + rest));
                }
                i += 1;
            },
        }
    }
    assert(out@ + Seq::<char>::empty() =~= out@);
    out
}

} // verus!
