//! The expander: one per project and context, used for the fields of one
//! task.
use vstd::prelude::*;
use vstd::string::*;
use crate::model::{
    ExpansionContext, ExpansionContextView, HostSnapshot, HostSnapshotView, Project, ProjectView,
};
use crate::patterns::{
    find_function, find_variable, first_function, first_variable, is_distinct_function,
    is_function_alone,
};
use crate::scope::TokenScope;
use crate::text::contains_char;

verus! {

/// How many times a text is gone over to replace what a replacement brought
/// in. Going over a text ends earlier where nothing is left to replace.
pub const MAX_PASSES: usize = 4096;

/// How many token functions may refer to one another in a chain.
pub const MAX_DEPTH: usize = 8;

/// Expands the tokens in the fields of a task.
pub struct TokenExpander<'graph> {
    /// The field being expanded.
    pub scope: TokenScope,
    pub context: &'graph ExpansionContext,
    pub project: &'graph Project,
    /// What was read of the machine when the expander was made.
    pub host: HostSnapshot,
}

pub struct TokenExpanderView {
    pub scope: TokenScope,
    pub context: ExpansionContextView,
    pub project: ProjectView,
    pub host: HostSnapshotView,
}

impl<'graph> View for TokenExpander<'graph> {
    type V = TokenExpanderView;

    open spec fn view(&self) -> TokenExpanderView {
        TokenExpanderView {
            scope: self.scope,
            context: self.context@,
            project: self.project@,
            host: self.host@,
        }
    }
}

impl TokenExpanderView {
    /// The same expander, at work on the field `scope`.
    pub open spec fn in_scope(self, scope: TokenScope) -> TokenExpanderView {
        TokenExpanderView { scope, ..self }
    }

    /// Whether `value` holds a token function that this scope expands: one
    /// that is all of `value`, or, in a script, one anywhere in it.
    pub open spec fn has_token_function(self, value: Seq<char>) -> bool {
        is_distinct_function(value) || (first_function(value) is Some && self.scope
            == TokenScope::Script)
    }
}

/// Whether `value` holds a token variable.
pub open spec fn has_variable(value: Seq<char>) -> bool {
    first_variable(value) is Some
}

impl<'graph> TokenExpander<'graph> {
    /// An expander for `project` in `context`, with what was read of the
    /// machine. It starts out at work on arguments.
    pub fn new(
        project: &'graph Project,
        context: &'graph ExpansionContext,
        host: HostSnapshot,
    ) -> (r: Self)
        ensures
            r@ == (TokenExpanderView {
                scope: TokenScope::Args,
                context: context@,
                project: project@,
                host: host@,
            }),
    {
        TokenExpander { scope: TokenScope::Args, context, project, host }
    }

    /// Whether `value` holds a token function that the current scope
    /// expands. Outside scripts a token function must be all of `value`: one
    /// with other text around it is not expanded.
    pub fn has_token_function(&self, value: &str) -> (r: bool)
        ensures
            r == self@.has_token_function(value@),
    {
        if contains_char(value, '@') {
            if is_function_alone(value) {
                return true;
            } else if find_function(value).is_some() {
                if self.scope == TokenScope::Script {
                    return true;
                }
            }
        } else {
            proof {
                crate::patterns::lemma_no_at_no_function(value@);
            }
        }
        false
    }

    /// Whether `value` holds a token variable.
    pub fn has_token_variable(&self, value: &str) -> (r: bool)
        ensures
            r == has_variable(value@),
    {
        if contains_char(value, '$') {
            find_variable(value).is_some()
        } else {
            proof {
                crate::patterns::lemma_no_dollar_no_variable(value@);
            }
            false
        }
    }
}

} // verus!
