//! Token variables: what each stands for, and how a text is gone over until
//! none is left to replace.
use vstd::prelude::*;
use vstd::string::*;
use crate::clock::{decimal, decimal_text, format_utc, utc_text};
use crate::env_substitute::{substitute_env_var, substituted};
use crate::model::{text_of, Task, TaskView};
use crate::patterns::{find_variable, first_variable};
use crate::text::{same_text, slice_of};
use crate::token_expander::{has_variable, TokenExpander, TokenExpanderView, MAX_PASSES};

verus! {

/// The text of `o`, or the empty text where there is none.
pub open spec fn or_empty(o: Option<Seq<char>>) -> Seq<char> {
    match o {
        Some(s) => s,
        None => seq![],
    }
}

/// The text of `o`, or the empty text where there is none.
pub fn text_or_empty(o: &Option<String>) -> (r: String)
    ensures
        r@ == or_empty(text_of(*o)),
{
    match o {
        Some(s) => s.clone(),
        None => String::new(),
    }
}

impl TokenExpanderView {
    /// The clock in whole seconds since the Unix epoch.
    pub open spec fn now_secs(self) -> int {
        (self.host.now_millis / 1000) as int
    }

    /// What the token variable `name` stands for, or `None` where the name
    /// is not known or the clock cannot be written.
    ///
    /// The host gives `arch`, `os` and `osFamily`; the context gives
    /// `workingDir`, `workspaceRoot` and the three `vcs` names; the project
    /// gives `language` and the names that start with `project`, with the
    /// empty text for what its metadata lacks; the task gives `target`,
    /// `task`, `taskPlatform` and `taskType`; the clock gives `date`,
    /// `datetime`, `time` and `timestamp`.
    pub open spec fn variable_value(self, task: TaskView, name: Seq<char>) -> Option<Seq<char>> {
        if name == "arch"@ {
            Some(self.host.arch)
        } else if name == "os"@ {
            Some(self.host.os)
        } else if name == "osFamily"@ {
            Some(self.host.os_family)
        } else if name == "workingDir"@ {
            Some(self.context.working_dir)
        } else if name == "workspaceRoot"@ {
            Some(self.context.workspace_root)
        } else if name == "language"@ {
            Some(self.project.language)
        } else if name == "project"@ {
            Some(self.project.id)
        } else if name == "projectAlias"@ {
            Some(or_empty(self.project.alias))
        } else if name == "projectChannel"@ {
            Some(
                match self.project.metadata {
                    Some(md) => or_empty(md.channel),
                    None => seq![],
                },
            )
        } else if name == "projectName"@ {
            Some(
                match self.project.metadata {
                    Some(md) => or_empty(md.name),
                    None => seq![],
                },
            )
        } else if name == "projectOwner"@ {
            Some(
                match self.project.metadata {
                    Some(md) => or_empty(md.owner),
                    None => seq![],
                },
            )
        } else if name == "projectRoot"@ {
            Some(self.project.root)
        } else if name == "projectSource"@ {
            Some(self.project.source)
        } else if name == "projectStack"@ {
            Some(self.project.stack)
        } else if name == "projectType"@ {
            Some(self.project.type_of)
        } else if name == "target"@ {
            Some(task.target.text())
        } else if name == "task"@ {
            Some(task.id)
        } else if name == "taskPlatform"@ {
            Some(task.platform)
        } else if name == "taskType"@ {
            Some(task.type_of)
        } else if name == "date"@ {
            utc_text(self.now_secs(), "%F"@)
        } else if name == "datetime"@ {
            utc_text(self.now_secs(), "%F_%T"@)
        } else if name == "time"@ {
            utc_text(self.now_secs(), "%T"@)
        } else if name == "timestamp"@ {
            Some(decimal((self.host.now_millis / 1000) as nat))
        } else if name == "vcsBranch"@ {
            Some(self.context.vcs_branch)
        } else if name == "vcsRepository"@ {
            Some(self.context.vcs_repository)
        } else if name == "vcsRevision"@ {
            Some(self.context.vcs_revision)
        } else {
            None
        }
    }

    /// `value` with its leftmost token variable replaced by what it stands
    /// for. `value` itself where it holds no token variable, or where the
    /// leftmost one stands for nothing.
    pub open spec fn replace_variable(self, task: TaskView, value: Seq<char>) -> Seq<char> {
        match first_variable(value) {
            Some((start, end)) => match self.variable_value(task, value.subrange(start + 1, end)) {
                Some(v) => value.subrange(0, start) + v + value.subrange(end, value.len() as int),
                None => value,
            },
            None => value,
        }
    }

    /// `value` after its leftmost token variable was replaced again and
    /// again, at most `passes` times, until it holds none or the replacement
    /// changes nothing.
    pub open spec fn replace_variables(
        self,
        task: TaskView,
        value: Seq<char>,
        passes: nat,
    ) -> Seq<char>
        decreases passes,
    {
        if passes == 0 || !has_variable(value) {
            value
        } else {
            let next = self.replace_variable(task, value);
            if next == value {
                value
            } else {
                self.replace_variables(task, next, (passes - 1) as nat)
            }
        }
    }

    /// `value` with its token variables replaced, and then its environment
    /// references filled in from the task's environment.
    pub open spec fn replace_all_variables(self, task: TaskView, value: Seq<char>) -> Seq<char> {
        substituted(self.replace_variables(task, value, MAX_PASSES as nat), task.env)
    }
}

/// A text without `$` comes out of every replacement as it went in.
pub proof fn lemma_plain_text_keeps(e: TokenExpanderView, task: TaskView, value: Seq<char>)
    requires
        forall|k: int| 0 <= k < value.len() ==> value[k] != '$',
    ensures
        !has_variable(value),
        e.replace_variable(task, value) == value,
        forall|passes: nat| e.replace_variables(task, value, passes) == value,
        e.replace_all_variables(task, value) == value,
{
    crate::patterns::lemma_no_dollar_no_variable(value);
    crate::env_substitute::lemma_substituted_plain(value, task.env, 0);
    assert(value.subrange(0, value.len() as int) =~= value);
}

impl<'graph> TokenExpander<'graph> {
    /// What the token variable `name` stands for.
    pub fn variable_value(&self, task: &Task, name: &str) -> (r: Option<String>)
        ensures
            text_of(r) == self@.variable_value(task@, name@),
    {
        let secs: i64 = (self.host.now_millis / 1000) as i64;
        if same_text(name, "arch") {
            Some(self.host.arch.clone())
        } else if same_text(name, "os") {
            Some(self.host.os.clone())
        } else if same_text(name, "osFamily") {
            Some(self.host.os_family.clone())
        } else if same_text(name, "workingDir") {
            Some(self.context.working_dir.clone())
        } else if same_text(name, "workspaceRoot") {
            Some(self.context.workspace_root.clone())
        } else if same_text(name, "language") {
            Some(self.project.language.clone())
        } else if same_text(name, "project") {
            Some(self.project.id.clone())
        } else if same_text(name, "projectAlias") {
            Some(text_or_empty(&self.project.alias))
        } else if same_text(name, "projectChannel") {
            Some(
                match &self.project.metadata {
                    Some(md) => text_or_empty(&md.channel),
                    None => String::new(),
                },
            )
        } else if same_text(name, "projectName") {
            Some(
                match &self.project.metadata {
                    Some(md) => text_or_empty(&md.name),
                    None => String::new(),
                },
            )
        } else if same_text(name, "projectOwner") {
            Some(
                match &self.project.metadata {
                    Some(md) => text_or_empty(&md.owner),
                    None => String::new(),
                },
            )
        } else if same_text(name, "projectRoot") {
            Some(self.project.root.clone())
        } else if same_text(name, "projectSource") {
            Some(self.project.source.clone())
        } else if same_text(name, "projectStack") {
            Some(self.project.stack.clone())
        } else if same_text(name, "projectType") {
            Some(self.project.type_of.clone())
        } else if same_text(name, "target") {
            Some(task.target.text())
        } else if same_text(name, "task") {
            Some(task.id.clone())
        } else if same_text(name, "taskPlatform") {
            Some(task.platform.clone())
        } else if same_text(name, "taskType") {
            Some(task.type_of.clone())
        } else if same_text(name, "date") {
            format_utc(secs, "%F")
        } else if same_text(name, "datetime") {
            format_utc(secs, "%F_%T")
        } else if same_text(name, "time") {
            format_utc(secs, "%T")
        } else if same_text(name, "timestamp") {
            Some(decimal_text(self.host.now_millis / 1000))
        } else if same_text(name, "vcsBranch") {
            Some(self.context.vcs_branch.clone())
        } else if same_text(name, "vcsRepository") {
            Some(self.context.vcs_repository.clone())
        } else if same_text(name, "vcsRevision") {
            Some(self.context.vcs_revision.clone())
        } else {
            None
        }
    }

    /// Replaces the leftmost token variable of `value` by what it stands
    /// for. Returns `value` unchanged where it holds no token variable, or
    /// where the leftmost one has a name that is not known.
    pub fn replace_variable(&self, task: &Task, value: &str) -> (r: String)
        ensures
            r@ == self@.replace_variable(task@, value@),
    {
        match find_variable(value) {
            Some((start, end)) => {
                let name = value.substring_char(start + 1, end);
                match self.variable_value(task, name) {
                    Some(v) => {
                        let mut out = slice_of(value, 0, start);
                        out.append(v.as_str());
                        out.append(value.substring_char(end, value.unicode_len()));
                        out
                    },
                    None => String::from_str(value),
                }
            },
            None => String::from_str(value),
        }
    }

    /// Replaces token variables in `value` until none is left, so that a
    /// variable whose value holds another is replaced through. Stops where a
    /// replacement changes nothing, which is where the leftmost variable has
    /// a name that is not known, and after `MAX_PASSES` replacements.
    pub fn replace_variables(&self, task: &Task, value: &str) -> (r: String)
        ensures
            r@ == self@.replace_variables(task@, value@, MAX_PASSES as nat),
    {
        let mut current = String::from_str(value);
        let mut left: usize = MAX_PASSES;
        while left > 0 && self.has_token_variable(current.as_str())
            invariant
                self@.replace_variables(task@, current@, left as nat) == self@.replace_variables(
                    task@,
                    value@,
                    MAX_PASSES as nat,
                ),
            decreases left,
        {
            let next = self.replace_variable(task, current.as_str());
            if same_text(next.as_str(), current.as_str()) {
                return current;
            }
            current = next;
            left -= 1;
        }
        current
    }

    /// Replaces the token variables of `value`, then fills in its
    /// environment references from the task's environment.
    pub fn replace_all_variables(&self, task: &Task, value: &str) -> (r: String)
        ensures
            r@ == self@.replace_all_variables(task@, value@),
    {
        let replaced = self.replace_variables(task, value);
        substitute_env_var(replaced.as_str(), &task.env)
    }
}

} // verus!
