//! What the expansion of a field gives.
use vstd::prelude::*;
use crate::model::{text_of, views};

verus! {

/// What the expansion of a field gives: names of environment variables,
/// files, globs, the token that was evaluated and the value it stands for.
/// Each list keeps the order in which its items were met, and nothing is
/// taken out for occurring twice.
#[derive(Clone, Debug, PartialEq, Eq)]
pub struct ExpandedResult {
    pub env: Vec<String>,
    pub files: Vec<String>,
    pub globs: Vec<String>,
    pub token: Option<String>,
    pub value: Option<String>,
}

pub struct ExpandedResultView {
    pub env: Seq<Seq<char>>,
    pub files: Seq<Seq<char>>,
    pub globs: Seq<Seq<char>>,
    pub token: Option<Seq<char>>,
    pub value: Option<Seq<char>>,
}

impl View for ExpandedResult {
    type V = ExpandedResultView;

    open spec fn view(&self) -> ExpandedResultView {
        ExpandedResultView {
            env: views(self.env@),
            files: views(self.files@),
            globs: views(self.globs@),
            token: text_of(self.token),
            value: text_of(self.value),
        }
    }
}

impl ExpandedResultView {
    /// The result that holds nothing.
    pub open spec fn empty() -> ExpandedResultView {
        ExpandedResultView { env: seq![], files: seq![], globs: seq![], token: None, value: None }
    }

    /// The result that holds nothing but the token it is for.
    pub open spec fn for_token(token: Seq<char>) -> ExpandedResultView {
        ExpandedResultView { token: Some(token), ..Self::empty() }
    }
}

impl Default for ExpandedResult {
    fn default() -> (r: ExpandedResult)
        ensures
            r@ == ExpandedResultView::empty(),
    {
        let r = ExpandedResult {
            env: Vec::new(),
            files: Vec::new(),
            globs: Vec::new(),
            token: None,
            value: None,
        };
        assert(r@.env =~= seq![]);
        assert(r@.files =~= seq![]);
        assert(r@.globs =~= seq![]);
        r
    }
}

/// Appends `text` to `list`.
pub fn push_text(list: &mut Vec<String>, text: String)
    ensures
        views(final(list)@) == views(old(list)@).push(text@),
{
    list.push(text);
    assert(views(list@) =~= views(old(list)@).push(text@));
}

/// Appends the texts of `more` to `list`, in order.
pub fn extend_texts(list: &mut Vec<String>, more: &Vec<String>)
    ensures
        views(final(list)@) == views(old(list)@) + views(more@),
{
    let mut i: usize = 0;
    assert(views(list@) + views(more@).take(0) =~= views(list@));
    while i < more.len()
        invariant
            i <= more.len(),
            views(list@) == views(old(list)@) + views(more@).take(i as int),
        decreases more.len() - i,
    {
        let ghost before = views(list@);
        list.push(more[i].clone());
        assert(views(list@) =~= before.push(more[i as int]@));
        assert(views(list@) =~= views(old(list)@) + views(more@).take(i + 1));
        i += 1;
    }
    assert(views(more@).take(i as int) =~= views(more@));
}

} // verus!
