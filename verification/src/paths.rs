//! Workspace-relative paths as texts with `/` between their parts, and what
//! is asked of the path libraries about them.
use vstd::prelude::*;
use vstd::string::*;

verus! {

/// `part` appended to `base`: one leading `/` of `part` is dropped, and a `/`
/// is put between the two unless `base` is empty or already ends in one.
pub open spec fn joined(base: Seq<char>, part: Seq<char>) -> Seq<char> {
    let tail = if part.len() > 0 && part[0] == '/' {
        part.subrange(1, part.len() as int)
    } else {
        part
    };
    let head = if base.len() > 0 && base.last() != '/' {
        base + seq!['/']
    } else {
        base
    };
    head + tail
}

/// What is left of the relative path `path` once the parts of `base` are
/// taken from its front, or `None` where `base` is not a prefix of `path`,
/// part by part.
pub uninterp spec fn stripped_prefix(path: Seq<char>, base: Seq<char>) -> Option<Seq<char>>;

/// `s` with every `\` turned into `/`.
pub open spec fn slashed(s: Seq<char>) -> Seq<char> {
    Seq::new(
        s.len(),
        |i: int|
            if s[i] == '\\' {
                '/'
            } else {
                s[i]
            },
    )
}

/// Whether `s` holds no `\`.
pub open spec fn is_slashed(s: Seq<char>) -> bool {
    forall|i: int| 0 <= i < s.len() ==> s[i] != '\\'
}

/// A text without `\` is its own slashed form, and every slashed form is
/// without `\`.
pub proof fn lemma_slashed(s: Seq<char>)
    ensures
        is_slashed(slashed(s)),
        is_slashed(s) ==> slashed(s) == s,
{
    if is_slashed(s) {
        assert(slashed(s) =~= s);
    }
}

/// `relative_path::RelativePath::join`: the result is `base` with `part`
/// pushed onto it, which the source does by dropping one leading `/` of
/// `part` and separating the two with a `/` where `base` is not empty and
/// does not end in one.
#[verifier::external_body]
pub(crate) fn join_path(base: &str, part: &str) -> (r: String)
    ensures
        r@ == joined(base@, part@),
{
    relative_path::RelativePath::new(base).join(part).into_string()
}

/// `relative_path::RelativePath::strip_prefix`: the result is named, not
/// spelled out. It depends on the two texts alone.
#[verifier::external_body]
pub(crate) fn strip_path_prefix(path: &str, base: &str) -> (r: Option<String>)
    ensures
        crate::model::text_of(r) == stripped_prefix(path@, base@),
{
    relative_path::RelativePath::new(path).strip_prefix(base).ok().map(|p| p.as_str().to_owned())
}

/// `relative_path::RelativePath::to_logical_path`: the relative path `rel`
/// laid under the directory `root`. The result follows the host's path
/// syntax, so nothing is claimed of it.
#[verifier::external_body]
pub(crate) fn logical_path(root: &str, rel: &str) -> (r: String) {
    relative_path::RelativePath::new(rel).to_logical_path(root).to_string_lossy().into_owned()
}

/// `pathdiff::diff_paths`: the way from the directory `base` to `path`, or
/// `None` where there is none. The result follows the host's path syntax, so
/// nothing is claimed of it.
#[verifier::external_body]
pub(crate) fn diff_paths(path: &str, base: &str) -> (r: Option<String>) {
    pathdiff::diff_paths(path, base).map(|p| p.to_string_lossy().into_owned())
}

/// Turns every `\` of `s` into `/`.
pub fn to_slashed(s: &str) -> (r: String)
    ensures
        r@ == slashed(s@),
{
    let n = s.unicode_len();
    let mut out = String::new();
    let mut i: usize = 0;
    proof {
        reveal_strlit("/");
        assert("/"@ =~= seq!['/']);
    }
    while i < n
        invariant
            n == s@.len(),
            i <= n,
            "/"@ == seq!['/'],
            out@ == slashed(s@).subrange(0, i as int),
        decreases n - i,
    {
        if s.get_char(i) == '\\' {
            out.append("/");
        } else {
            out.append(s.substring_char(i, i + 1));
            assert(s@.subrange(i as int, i + 1) =~= seq![s@[i as int]]);
        }
        assert(out@ =~= slashed(s@).subrange(0, i + 1));
        i += 1;
    }
    assert(out@ =~= slashed(s@));
    out
}

/// How a path outside the project is written for a task that runs in its
/// project: the way from the project to it where there is one, else the
/// absolute path, in either case with `/` between the parts.
pub open spec fn outside_rendering(absolute: Seq<char>, way: Option<Seq<char>>) -> Seq<char> {
    match way {
        Some(w) => slashed(w),
        None => slashed(absolute),
    }
}

/// Chooses between the way from the project and the absolute path, and
/// writes the choice with `/` between the parts.
pub fn render_outside(absolute: &str, way: Option<String>) -> (r: String)
    ensures
        r@ == outside_rendering(absolute@, crate::model::text_of(way)),
{
    match way {
        Some(w) => to_slashed(w.as_str()),
        None => to_slashed(absolute),
    }
}

} // verus!
