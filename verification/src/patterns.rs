//! The token grammar: where a token function, a token variable or an
//! environment reference stands in a text.
//!
//! A token function is `@name(arg)`: lowercase letters for the name and any
//! non-empty run without `)` for the argument. A token variable is `$name`: a
//! letter followed by letters and digits. An environment reference is
//! `${NAME}` over capitals, digits and `_`. Each matcher returns the leftmost
//! occurrence, and each name or argument is the longest run that fits.
use vstd::prelude::*;
use vstd::string::*;

verus! {

/// The character classes that the token grammar is built from.
#[derive(Clone, Copy, Debug)]
pub enum CharClass {
    /// `a` to `z`: the name of a token function.
    Lower,
    /// Letters and digits: the tail of a token variable's name.
    Alnum,
    /// Anything but `)`: the argument of a token function.
    Argument,
    /// Capitals, digits and `_`: the name of an environment variable.
    EnvName,
    /// Anything but the wildcards `*`, `?`, `[` and `{` of a glob.
    Fixed,
    /// Anything that a shell reads as it stands: no blank, quote or `\`.
    Plain,
}

pub open spec fn is_lower(c: char) -> bool {
    'a' <= c && c <= 'z'
}

pub open spec fn is_upper(c: char) -> bool {
    'A' <= c && c <= 'Z'
}

pub open spec fn is_digit(c: char) -> bool {
    '0' <= c && c <= '9'
}

pub open spec fn is_letter(c: char) -> bool {
    is_lower(c) || is_upper(c)
}

/// Whether `c` belongs to `class`.
pub open spec fn in_class(class: CharClass, c: char) -> bool {
    match class {
        CharClass::Lower => is_lower(c),
        CharClass::Alnum => is_letter(c) || is_digit(c),
        CharClass::Argument => c != ')',
        CharClass::EnvName => is_upper(c) || is_digit(c) || c == '_',
        CharClass::Fixed => c != '*' && c != '?' && c != '[' && c != '{',
        CharClass::Plain => c != ' ' && c != '\t' && c != '\n' && c != '\'' && c != '"' && c
            != '\\',
    }
}

/// The end of the longest run of `class` characters that starts at `from`.
pub open spec fn run_end(s: Seq<char>, from: int, class: CharClass) -> int
    decreases s.len() - from,
{
    if 0 <= from < s.len() && in_class(class, s[from]) {
        run_end(s, from + 1, class)
    } else {
        from
    }
}

/// The token function that starts exactly at `at`, as the position of its
/// opening bracket and the position just behind its closing bracket.
pub open spec fn function_at(s: Seq<char>, at: int) -> Option<(int, int)> {
    if 0 <= at < s.len() && s[at] == '@' {
        let open = run_end(s, at + 1, CharClass::Lower);
        let close = run_end(s, open + 1, CharClass::Argument);
        if at + 1 < open < s.len() && s[open] == '(' && open + 1 < close < s.len() {
            Some((open, close + 1))
        } else {
            None
        }
    } else {
        None
    }
}

/// The leftmost token function at or behind `from`: its start, the position
/// of its opening bracket and the position just behind it.
pub open spec fn function_from(s: Seq<char>, from: int) -> Option<(int, int, int)>
    decreases s.len() - from,
{
    if from < 0 || from >= s.len() {
        None
    } else {
        match function_at(s, from) {
            Some((open, end)) => Some((from, open, end)),
            None => function_from(s, from + 1),
        }
    }
}

/// The leftmost token function of `s`.
pub open spec fn first_function(s: Seq<char>) -> Option<(int, int, int)> {
    function_from(s, 0)
}

/// Whether `s` is one token function and nothing else.
pub open spec fn is_distinct_function(s: Seq<char>) -> bool {
    match function_at(s, 0) {
        Some((_, end)) => end == s.len(),
        None => false,
    }
}

/// The token variable that starts exactly at `at`, as the position just
/// behind its name.
pub open spec fn variable_at(s: Seq<char>, at: int) -> Option<int> {
    if 0 <= at && at + 1 < s.len() && s[at] == '$' && is_letter(s[at + 1]) {
        Some(run_end(s, at + 2, CharClass::Alnum))
    } else {
        None
    }
}

/// The leftmost token variable at or behind `from`: its start and the
/// position just behind its name.
pub open spec fn variable_from(s: Seq<char>, from: int) -> Option<(int, int)>
    decreases s.len() - from,
{
    if from < 0 || from >= s.len() {
        None
    } else {
        match variable_at(s, from) {
            Some(end) => Some((from, end)),
            None => variable_from(s, from + 1),
        }
    }
}

/// The leftmost token variable of `s`.
pub open spec fn first_variable(s: Seq<char>) -> Option<(int, int)> {
    variable_from(s, 0)
}

/// The environment reference `${NAME}` that starts exactly at `at`, as the
/// position just behind its closing brace.
pub open spec fn env_reference_at(s: Seq<char>, at: int) -> Option<int> {
    if 0 <= at && at + 1 < s.len() && s[at] == '$' && s[at + 1] == '{' {
        let close = run_end(s, at + 2, CharClass::EnvName);
        if at + 2 < close < s.len() && s[close] == '}' {
            Some(close + 1)
        } else {
            None
        }
    } else {
        None
    }
}

/// A run ends inside the text, at or behind its start.
pub proof fn lemma_run_end_bounds(s: Seq<char>, from: int, class: CharClass)
    requires
        0 <= from <= s.len(),
    ensures
        from <= run_end(s, from, class) <= s.len(),
    decreases s.len() - from,
{
    if from < s.len() && in_class(class, s[from]) {
        lemma_run_end_bounds(s, from + 1, class);
    }
}

/// Every character of a run belongs to the class, and the run cannot be
/// longer: the character behind it, if there is one, does not belong.
pub proof fn lemma_run_end_is_longest(s: Seq<char>, from: int, class: CharClass)
    requires
        0 <= from <= s.len(),
    ensures
        forall|k: int| from <= k < run_end(s, from, class) ==> in_class(class, #[trigger] s[k]),
        run_end(s, from, class) < s.len() ==> !in_class(class, s[run_end(s, from, class)]),
    decreases s.len() - from,
{
    if from < s.len() && in_class(class, s[from]) {
        lemma_run_end_is_longest(s, from + 1, class);
    }
}

/// A token function has the shape `@name(arg)`: lower-case letters between
/// the `@` and the opening bracket, and no `)` before the closing one.
pub proof fn lemma_function_shape(s: Seq<char>, at: int)
    requires
        function_at(s, at) is Some,
    ensures
        ({
            let (open, end) = function_at(s, at).unwrap();
            &&& 0 <= at && at + 1 < open && open + 2 < end && end <= s.len()
            &&& s[at] == '@'
            &&& s[open] == '('
            &&& s[end - 1] == ')'
            &&& forall|k: int| at < k < open ==> is_lower(#[trigger] s[k])
            &&& forall|k: int| open < k < end - 1 ==> #[trigger] s[k] != ')'
        }),
{
    let open = run_end(s, at + 1, CharClass::Lower);
    lemma_run_end_is_longest(s, at + 1, CharClass::Lower);
    lemma_run_end_is_longest(s, open + 1, CharClass::Argument);
}

/// The match that `function_from` returns is a token function, and no token
/// function starts between `from` and it.
pub proof fn lemma_function_from_is_leftmost(s: Seq<char>, from: int)
    requires
        0 <= from,
    ensures
        match function_from(s, from) {
            Some((start, open, end)) => {
                &&& from <= start < s.len()
                &&& function_at(s, start) == Some((open, end))
                &&& forall|k: int| from <= k < start ==> function_at(s, k) is None
            },
            None => forall|k: int| from <= k ==> function_at(s, k) is None,
        },
    decreases s.len() - from,
{
    if from < s.len() && function_at(s, from) is None {
        lemma_function_from_is_leftmost(s, from + 1);
    }
}

/// The match that `variable_from` returns is a token variable, and no token
/// variable starts between `from` and it.
pub proof fn lemma_variable_from_is_leftmost(s: Seq<char>, from: int)
    requires
        0 <= from,
    ensures
        match variable_from(s, from) {
            Some((start, end)) => {
                &&& from <= start && start + 2 <= end && end <= s.len()
                &&& variable_at(s, start) == Some(end)
                &&& forall|k: int| from <= k < start ==> variable_at(s, k) is None
            },
            None => forall|k: int| from <= k ==> variable_at(s, k) is None,
        },
    decreases s.len() - from,
{
    if from < s.len() {
        if variable_at(s, from) is None {
            lemma_variable_from_is_leftmost(s, from + 1);
        } else {
            lemma_run_end_bounds(s, from + 2, CharClass::Alnum);
        }
    }
}

/// Without an `@` there is no token function.
pub proof fn lemma_no_at_no_function(s: Seq<char>)
    requires
        forall|k: int| 0 <= k < s.len() ==> s[k] != '@',
    ensures
        first_function(s) is None,
        !is_distinct_function(s),
{
    lemma_function_from_is_leftmost(s, 0);
}

/// Without a `$` there is neither a token variable nor an environment
/// reference.
pub proof fn lemma_no_dollar_no_variable(s: Seq<char>)
    requires
        forall|k: int| 0 <= k < s.len() ==> s[k] != '$',
    ensures
        first_variable(s) is None,
        forall|k: int| env_reference_at(s, k) is None,
{
    lemma_variable_from_is_leftmost(s, 0);
}

/// Whether `c` belongs to `class`.
pub fn char_in_class(class: CharClass, c: char) -> (r: bool)
    ensures
        r == in_class(class, c),
{
    match class {
        CharClass::Lower => 'a' <= c && c <= 'z',
        CharClass::Alnum => ('a' <= c && c <= 'z') || ('A' <= c && c <= 'Z') || ('0' <= c && c
            <= '9'),
        CharClass::Argument => c != ')',
        CharClass::EnvName => ('A' <= c && c <= 'Z') || ('0' <= c && c <= '9') || c == '_',
        CharClass::Fixed => c != '*' && c != '?' && c != '[' && c != '{',
        CharClass::Plain => c != ' ' && c != '\t' && c != '\n' && c != '\'' && c != '"' && c
            != '\\',
    }
}

/// Walks over the longest run of `class` characters that starts at `from`.
pub fn scan_run(s: &str, from: usize, class: CharClass) -> (end: usize)
    requires
        from <= s@.len(),
    ensures
        end == run_end(s@, from as int, class),
        from <= end <= s@.len(),
{
    let n = s.unicode_len();
    let mut i: usize = from;
    while i < n && char_in_class(class, s.get_char(i))
        invariant
            n == s@.len(),
            from <= i <= n,
            run_end(s@, i as int, class) == run_end(s@, from as int, class),
        decreases n - i,
    {
        i += 1;
    }
    i
}

/// The token function that starts exactly at `at`, if there is one.
pub fn match_function_at(s: &str, at: usize) -> (r: Option<(usize, usize)>)
    ensures
        match r {
            Some((open, end)) => function_at(s@, at as int) == Some((open as int, end as int)),
            None => function_at(s@, at as int) is None,
        },
{
    let n = s.unicode_len();
    if at >= n || s.get_char(at) != '@' {
        return None;
    }
    let open = scan_run(s, at + 1, CharClass::Lower);
    if open <= at + 1 || open >= n || s.get_char(open) != '(' {
        return None;
    }
    let close = scan_run(s, open + 1, CharClass::Argument);
    if close <= open + 1 || close >= n {
        return None;
    }
    Some((open, close + 1))
}

/// The leftmost token function of `s`, if there is one: where it starts,
/// where its opening bracket stands, and where it ends.
pub fn find_function(s: &str) -> (r: Option<(usize, usize, usize)>)
    ensures
        match r {
            Some((start, open, end)) => first_function(s@) == Some(
                (start as int, open as int, end as int),
            ) && start + 1 < open && open + 2 < end && end <= s@.len(),
            None => first_function(s@) is None,
        },
{
    let n = s.unicode_len();
    let mut i: usize = 0;
    while i < n
        invariant
            n == s@.len(),
            i <= n,
            function_from(s@, i as int) == first_function(s@),
        decreases n - i,
    {
        match match_function_at(s, i) {
            Some((open, end)) => {
                proof {
                    lemma_function_shape(s@, i as int);
                }
                return Some((i, open, end));
            },
            None => {},
        }
        i += 1;
    }
    None
}

/// Whether `s` is one token function and nothing else.
pub fn is_function_alone(s: &str) -> (r: bool)
    ensures
        r == is_distinct_function(s@),
{
    match match_function_at(s, 0) {
        Some((_, end)) => end == s.unicode_len(),
        None => false,
    }
}

/// The token variable that starts exactly at `at`, if there is one.
pub fn match_variable_at(s: &str, at: usize) -> (r: Option<usize>)
    ensures
        match r {
            Some(end) => variable_at(s@, at as int) == Some(end as int) && at + 2 <= end && end
                <= s@.len(),
            None => variable_at(s@, at as int) is None,
        },
{
    let n = s.unicode_len();
    if n < 2 || at >= n - 1 || s.get_char(at) != '$' {
        return None;
    }
    let c = s.get_char(at + 1);
    if !(('a' <= c && c <= 'z') || ('A' <= c && c <= 'Z')) {
        return None;
    }
    Some(scan_run(s, at + 2, CharClass::Alnum))
}

/// The leftmost token variable of `s`, if there is one: where it starts and
/// where its name ends.
pub fn find_variable(s: &str) -> (r: Option<(usize, usize)>)
    ensures
        match r {
            Some((start, end)) => first_variable(s@) == Some((start as int, end as int)) && start
                + 2 <= end && end <= s@.len(),
            None => first_variable(s@) is None,
        },
{
    let n = s.unicode_len();
    let mut i: usize = 0;
    while i < n
        invariant
            n == s@.len(),
            i <= n,
            variable_from(s@, i as int) == first_variable(s@),
        decreases n - i,
    {
        match match_variable_at(s, i) {
            Some(end) => {
                return Some((i, end));
            },
            None => {},
        }
        i += 1;
    }
    None
}

/// The environment reference that starts exactly at `at`, if there is one.
pub fn match_env_reference_at(s: &str, at: usize) -> (r: Option<usize>)
    ensures
        match r {
            Some(end) => env_reference_at(s@, at as int) == Some(end as int) && at + 3 < end
                && end <= s@.len(),
            None => env_reference_at(s@, at as int) is None,
        },
{
    let n = s.unicode_len();
    if n < 2 || at >= n - 1 || s.get_char(at) != '$' || s.get_char(at + 1) != '{' {
        return None;
    }
    let close = scan_run(s, at + 2, CharClass::EnvName);
    if close <= at + 2 || close >= n || s.get_char(close) != '}' {
        return None;
    }
    Some(close + 1)
}

} // verus!
