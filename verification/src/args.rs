//! Joining texts into one line: as words for a shell, or with a separator.
use vstd::prelude::*;
use vstd::string::*;
use crate::model::views;
use crate::patterns::{run_end, scan_run, CharClass};
use crate::text::{replace_all, replaced};

verus! {

/// Whether a shell would not read `word` as one word as it stands: it is
/// empty, or holds a blank, a quote or a `\`.
pub open spec fn needs_quotes(word: Seq<char>) -> bool {
    word.len() == 0 || run_end(word, 0, CharClass::Plain) < word.len()
}

/// `word` between single quotes, each single quote inside it written as
/// `'\''`.
pub open spec fn quoted(word: Seq<char>) -> Seq<char> {
    "'"@ + replaced(word, "'"@, "'\\''"@) + "'"@
}

/// `word` as a shell reads it back: quoted where it needs to be.
pub open spec fn shell_word(word: Seq<char>) -> Seq<char> {
    if needs_quotes(word) {
        quoted(word)
    } else {
        word
    }
}

/// The texts of `items` in order, with `separator` between neighbours.
pub open spec fn joined_with(items: Seq<Seq<char>>, separator: Seq<char>) -> Seq<char>
    decreases items.len(),
{
    if items.len() == 0 {
        seq![]
    } else if items.len() == 1 {
        items[0]
    } else {
        joined_with(items.drop_last(), separator) + separator + items.last()
    }
}

/// Each of `items` as a shell word.
pub open spec fn shell_words(items: Seq<Seq<char>>) -> Seq<Seq<char>> {
    Seq::new(items.len(), |i: int| shell_word(items[i]))
}

/// `items` as one line that a shell splits back into them.
pub open spec fn shell_joined(items: Seq<Seq<char>>) -> Seq<char> {
    joined_with(shell_words(items), " "@)
}

/// Writes `word` so that a shell reads it back as one word.
pub fn quote_word(word: &str) -> (r: String)
    ensures
        r@ == shell_word(word@),
{
    let n = word.unicode_len();
    if n > 0 && scan_run(word, 0, CharClass::Plain) == n {
        return String::from_str(word);
    }
    proof {
        reveal_strlit("'");
    }
    let mut out = String::from_str("'");
    let inner = replace_all(word, "'", "'\\''");
    out.append(inner.as_str());
    out.append("'");
    out
}

/// Joins `items` with `separator` between neighbours.
pub fn join_with(items: &Vec<String>, separator: &str) -> (r: String)
    ensures
        r@ == joined_with(views(items@), separator@),
{
    let mut out = String::new();
    let mut i: usize = 0;
    assert(views(items@).take(0) =~= Seq::<Seq<char>>::empty());
    while i < items.len()
        invariant
            i <= items.len(),
            out@ == joined_with(views(items@).take(i as int), separator@),
        decreases items.len() - i,
    {
        proof {
            let upto = views(items@).take(i + 1);
            assert(upto.drop_last() =~= views(items@).take(i as int));
            assert(upto.last() == items[i as int]@);
            if i == 0 {
                assert(out@ + items[i as int]@ =~= items[i as int]@);
            }
        }
        if i > 0 {
            out.append(separator);
        }
        out.append(items[i].as_str());
        i += 1;
    }
    assert(views(items@).take(i as int) =~= views(items@));
    out
}

/// Joins `items` into one line for a shell: a blank between neighbours, and
/// quotes around each item that needs them.
pub fn join_args(items: &Vec<String>) -> (r: String)
    ensures
        r@ == shell_joined(views(items@)),
{
    let mut words: Vec<String> = Vec::new();
    let mut i: usize = 0;
    while i < items.len()
        invariant
            i <= items.len(),
            views(words@) == shell_words(views(items@)).take(i as int),
        decreases items.len() - i,
    {
        let ghost before = views(words@);
        words.push(quote_word(items[i].as_str()));
        assert(views(words@) =~= before.push(shell_word(items[i as int]@)));
        assert(views(words@) =~= shell_words(views(items@)).take(i + 1));
        i += 1;
    }
    assert(shell_words(views(items@)).take(i as int) =~= shell_words(views(items@)));
    join_with(&words, " ")
}

} // verus!
