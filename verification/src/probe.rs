//! Which paths expansion asks the snapshot about, so that whoever takes the
//! snapshot knows what to look at on disk.
use vstd::prelude::*;
use vstd::string::*;
use crate::expanded::{extend_texts, push_text};
use crate::functions::input_relative;
use crate::model::{views, FileGroupView, InputPath, InputPathView, Task, TaskView};
use crate::token_expander::{TokenExpander, TokenExpanderView};

verus! {

/// The files that `groups` declare, group after group.
pub open spec fn declared_files(groups: Seq<FileGroupView>) -> Seq<Seq<char>>
    decreases groups.len(),
{
    if groups.len() == 0 {
        seq![]
    } else {
        declared_files(groups.drop_last()) + groups.last().files
    }
}

impl TokenExpanderView {
    /// The declared files among `inputs`, relative to the workspace and
    /// with their tokens replaced, in order.
    pub open spec fn input_files(self, task: TaskView, inputs: Seq<InputPathView>) -> Seq<
        Seq<char>,
    >
        decreases inputs.len(),
    {
        if inputs.len() == 0 {
            seq![]
        } else {
            let before = self.input_files(task, inputs.drop_last());
            match inputs.last() {
                InputPathView::ProjectFile(_) | InputPathView::WorkspaceFile(_) => before.push(
                    self.replace_all_variables(
                        task,
                        input_relative(inputs.last(), self.project.source).unwrap(),
                    ),
                ),
                _ => before,
            }
        }
    }

    /// The paths whose kind expansion asks the snapshot for: the files that
    /// the project's file groups declare, then the declared files among the
    /// inputs of `task`.
    pub open spec fn probed_paths(self, task: TaskView) -> Seq<Seq<char>> {
        declared_files(self.project.file_groups) + self.input_files(task, task.inputs)
    }
}

impl<'graph> TokenExpander<'graph> {
    /// Lists the paths whose kind expansion asks the snapshot for. What the
    /// snapshot says of disk so far plays no part in the list.
    pub fn paths_to_probe(&self, task: &Task) -> (r: Vec<String>)
        ensures
            views(r@) == self@.probed_paths(task@),
    {
        let mut paths: Vec<String> = Vec::new();
        let ghost groups = self@.project.file_groups;
        let mut i: usize = 0;
        proof {
            assert(groups.take(0) =~= Seq::<FileGroupView>::empty());
            assert(views(paths@) =~= Seq::<Seq<char>>::empty());
        }
        while i < self.project.file_groups.len()
            invariant
                i <= self.project.file_groups.len(),
                groups == self@.project.file_groups,
                views(paths@) == declared_files(groups.take(i as int)),
            decreases self.project.file_groups.len() - i,
        {
            proof {
                assert(groups.take(i + 1).drop_last() =~= groups.take(i as int));
                assert(groups.take(i + 1).last() == self.project.file_groups[i as int]@);
            }
            extend_texts(&mut paths, &self.project.file_groups[i].files);
            i += 1;
        }
        let ghost inputs = task@.inputs;
        let ghost declared = declared_files(groups);
        let mut j: usize = 0;
        proof {
            assert(groups.take(i as int) =~= groups);
            assert(inputs.take(0) =~= Seq::<InputPathView>::empty());
            assert(views(paths@) =~= declared + Seq::<Seq<char>>::empty());
        }
        while j < task.inputs.len()
            invariant
                j <= task.inputs.len(),
                inputs == task@.inputs,
                declared == declared_files(self@.project.file_groups),
                views(paths@) == declared + self@.input_files(task@, inputs.take(j as int)),
            decreases task.inputs.len() - j,
        {
            let ghost before = self@.input_files(task@, inputs.take(j as int));
            proof {
                assert(inputs.take(j + 1).drop_last() =~= inputs.take(j as int));
                assert(inputs.take(j + 1).last() == task.inputs[j as int]@);
            }
            match &task.inputs[j] {
                InputPath::ProjectFile(_) | InputPath::WorkspaceFile(_) => {
                    let path = task.inputs[j].to_workspace_relative(self.project.source.as_str());
                    let file = self.replace_all_variables(task, path.unwrap().as_str());
                    push_text(&mut paths, file);
                    assert((declared + before).push(file@) =~= declared + before.push(file@));
                },
                _ => {},
            }
            j += 1;
        }
        assert(inputs.take(j as int) =~= inputs);
        paths
    }
}

} // verus!
