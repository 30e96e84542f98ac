//! How the paths that a token function gives are written into a script, an
//! argument or an environment value: as the task sees them from where it
//! runs.
use vstd::prelude::*;
use vstd::string::*;
use crate::expanded::{ExpandedResult, ExpandedResultView};
use crate::model::{views, Task, TaskView};
use crate::paths::{
    diff_paths, is_slashed, logical_path, render_outside, strip_path_prefix, stripped_prefix,
};
use crate::token_expander::{TokenExpander, TokenExpanderView};

verus! {

impl TokenExpanderView {
    /// How `path` is written where that does not depend on the host: from
    /// the workspace root as `./` and the path; else, for a path under the
    /// project's directory, as `./` and what follows that directory. `None`
    /// for a path outside the project of a task that runs in its project.
    pub open spec fn rendering_inside(self, task: TaskView, path: Seq<char>) -> Option<
        Seq<char>,
    > {
        if task.options.run_from_workspace_root {
            Some("./"@ + path)
        } else {
            match stripped_prefix(path, self.project.source) {
                Some(rest) => Some("./"@ + rest),
                None => None,
            }
        }
    }

    /// Whether `out` is `path` as the task sees it. A path outside the
    /// project of a task that runs in its project is written by the host's
    /// path rules, as the way from the project to it, and of that only this
    /// is stated: it holds no `\`.
    pub open spec fn is_rendering(self, task: TaskView, path: Seq<char>, out: Seq<char>) -> bool {
        match self.rendering_inside(task, path) {
            Some(text) => out == text,
            None => is_slashed(out),
        }
    }

    /// Whether `items` is what `result` is written as: its files, then its
    /// globs, each as the task sees it, then its value.
    pub open spec fn renders(
        self,
        task: TaskView,
        result: ExpandedResultView,
        items: Seq<Seq<char>>,
    ) -> bool {
        let files = result.files.len();
        let globs = result.globs.len();
        &&& items.len() == files + globs + if result.value is Some {
            1int
        } else {
            0int
        }
        &&& forall|i: int|
            0 <= i < files ==> self.is_rendering(task, #[trigger] result.files[i], items[i])
        &&& forall|i: int|
            0 <= i < globs ==> self.is_rendering(
                task,
                #[trigger] result.globs[i],
                items[files + i],
            )
        &&& result.value is Some ==> items.last() == result.value.unwrap()
    }
}

impl<'graph> TokenExpander<'graph> {
    /// Writes the workspace-relative `path` as the task sees it: from the
    /// workspace root where the task runs there, else from the project's
    /// directory.
    pub fn resolve_path_for_task(&self, task: &Task, path: &str) -> (r: String)
        ensures
            self@.is_rendering(task@, path@, r@),
    {
        if task.options.run_from_workspace_root {
            let mut out = String::from_str("./");
            out.append(path);
            out
        } else {
            match strip_path_prefix(path, self.project.source.as_str()) {
                Some(rest) => {
                    let mut out = String::from_str("./");
                    out.append(rest.as_str());
                    out
                },
                None => {
                    let absolute = logical_path(self.context.workspace_root.as_str(), path);
                    let way = diff_paths(absolute.as_str(), self.project.root.as_str());
                    proof {
                        crate::paths::lemma_slashed(absolute@);
                        if way is Some {
                            crate::paths::lemma_slashed(way.unwrap()@);
                        }
                    }
                    render_outside(absolute.as_str(), way)
                },
            }
        }
    }

    /// Writes what a token function gave as the task sees it: its files,
    /// then its globs, then its value.
    pub fn render_items(&self, task: &Task, result: &ExpandedResult) -> (items: Vec<String>)
        ensures
            self@.renders(task@, result@, views(items@)),
    {
        let mut items: Vec<String> = Vec::new();
        let files = result.files.len();
        let globs = result.globs.len();
        let mut i: usize = 0;
        while i < files
            invariant
                files == result.files.len(),
                i <= files,
                items.len() == i,
                forall|k: int|
                    0 <= k < i ==> self@.is_rendering(
                        task@,
                        #[trigger] result@.files[k],
                        views(items@)[k],
                    ),
            decreases files - i,
        {
            let ghost before = views(items@);
            let text = self.resolve_path_for_task(task, result.files[i].as_str());
            items.push(text);
            assert(views(items@) =~= before.push(text@));
            i += 1;
        }
        let mut j: usize = 0;
        while j < globs
            invariant
                files == result.files.len(),
                globs == result.globs.len(),
                j <= globs,
                items.len() == files + j,
                forall|k: int|
                    0 <= k < files ==> self@.is_rendering(
                        task@,
                        #[trigger] result@.files[k],
                        views(items@)[k],
                    ),
                forall|k: int|
                    0 <= k < j ==> self@.is_rendering(
                        task@,
                        #[trigger] result@.globs[k],
                        views(items@)[files + k],
                    ),
            decreases globs - j,
        {
            let ghost before = views(items@);
            let text = self.resolve_path_for_task(task, result.globs[j].as_str());
            items.push(text);
            assert(views(items@) =~= before.push(text@));
            j += 1;
        }
        let ghost before = views(items@);
        match &result.value {
            Some(v) => {
                items.push(v.clone());
                assert(views(items@) =~= before.push(v@));
            },
            None => {},
        }
        items
    }
}

} // verus!
