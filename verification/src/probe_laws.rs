//! Expansion reads the disk only through the paths that it lists
//! beforehand: two snapshots that agree on them give the same results.
use vstd::prelude::*;
use crate::file_group::selected;
use crate::functions::input_relative;
use crate::model::{
    group_index, FileGroupView, HostSnapshotView, InputPathView, OutputPathView, PathKind, TaskView,
};
use crate::path_laws::lemma_group_index_bounds;
use crate::probe::declared_files;
use crate::scope::{TokenFunction, TokenScope};
use crate::token_expander::{TokenExpanderView, MAX_DEPTH};

verus! {

/// Whether the two expanders differ in nothing but what their snapshots say
/// of the disk.
pub open spec fn same_but_disk(a: TokenExpanderView, b: TokenExpanderView) -> bool {
    &&& a.scope == b.scope
    &&& a.context == b.context
    &&& a.project == b.project
    &&& a.host.arch == b.host.arch
    &&& a.host.os == b.host.os
    &&& a.host.os_family == b.host.os_family
    &&& a.host.env_vars == b.host.env_vars
    &&& a.host.now_millis == b.host.now_millis
}

/// Whether the two snapshots say the same of every one of `paths`.
pub open spec fn agree_on(a: HostSnapshotView, b: HostSnapshotView, paths: Seq<Seq<char>>) -> bool {
    forall|p: Seq<char>| #[trigger] paths.contains(p) ==> a.kind_of(p) == b.kind_of(p)
}

/// The files of every group are among the declared files.
pub proof fn lemma_group_files_are_declared(groups: Seq<FileGroupView>, g: int, k: int)
    requires
        0 <= g < groups.len(),
        0 <= k < groups[g].files.len(),
    ensures
        declared_files(groups).contains(groups[g].files[k]),
    decreases groups.len(),
{
    let before = declared_files(groups.drop_last());
    let all = declared_files(groups);
    if g == groups.len() - 1 {
        assert(all[before.len() + k] == groups[g].files[k]);
    } else {
        lemma_group_files_are_declared(groups.drop_last(), g, k);
        let i = choose|i: int| 0 <= i < before.len() && before[i] == groups[g].files[k];
        assert(all[i] == groups[g].files[k]);
    }
}

/// The file of every declared file among the inputs is among the input
/// files.
pub proof fn lemma_input_file_is_listed(
    e: TokenExpanderView,
    task: TaskView,
    inputs: Seq<InputPathView>,
    i: int,
)
    requires
        0 <= i < inputs.len(),
        inputs[i] is ProjectFile || inputs[i] is WorkspaceFile,
    ensures
        e.input_files(task, inputs).contains(
            e.replace_all_variables(task, input_relative(inputs[i], e.project.source).unwrap()),
        ),
    decreases inputs.len(),
{
    let file = e.replace_all_variables(task, input_relative(inputs[i], e.project.source).unwrap());
    let before = e.input_files(task, inputs.drop_last());
    let all = e.input_files(task, inputs);
    if i == inputs.len() - 1 {
        assert(all[before.len() as int] == file);
    } else {
        lemma_input_file_is_listed(e, task, inputs.drop_last(), i);
        let k = choose|k: int| 0 <= k < before.len() && before[k] == file;
        assert(all[k] == file);
    }
}

/// Token variables stand for the same under both expanders, and so every
/// replacement gives the same.
pub proof fn lemma_same_replacements(
    a: TokenExpanderView,
    b: TokenExpanderView,
    task: TaskView,
    value: Seq<char>,
    passes: nat,
)
    requires
        same_but_disk(a.in_scope(b.scope), b),
    ensures
        a.replace_variable(task, value) == b.replace_variable(task, value),
        a.replace_variables(task, value, passes) == b.replace_variables(task, value, passes),
    decreases passes,
{
    assert forall|name: Seq<char>|
        a.variable_value(task, name) == b.variable_value(task, name) by {}
    if passes > 0 {
        lemma_same_replacements(a, b, task, a.replace_variable(task, value), (passes - 1) as nat);
    }
}

/// Every replacement of all tokens gives the same under both expanders.
pub proof fn lemma_same_paths(
    a: TokenExpanderView,
    b: TokenExpanderView,
    task: TaskView,
    value: Seq<char>,
)
    requires
        same_but_disk(a.in_scope(b.scope), b),
    ensures
        a.replace_all_variables(task, value) == b.replace_all_variables(task, value),
        a.replace_variable(task, value) == b.replace_variable(task, value),
{
    lemma_same_replacements(a, b, task, value, crate::token_expander::MAX_PASSES as nat);
}

/// Both expanders list the same input files.
pub proof fn lemma_same_input_files(
    a: TokenExpanderView,
    b: TokenExpanderView,
    task: TaskView,
    inputs: Seq<InputPathView>,
)
    requires
        same_but_disk(a.in_scope(b.scope), b),
    ensures
        a.input_files(task, inputs) == b.input_files(task, inputs),
    decreases inputs.len(),
{
    if inputs.len() > 0 {
        lemma_same_input_files(a, b, task, inputs.drop_last());
        match input_relative(inputs.last(), a.project.source) {
            Some(path) => {
                lemma_same_paths(a, b, task, path);
            },
            None => {},
        }
    }
}

/// Snapshots that agree on the declared paths choose the same among them.
pub proof fn lemma_same_selection(
    group: Seq<char>,
    paths: Seq<Seq<char>>,
    a: HostSnapshotView,
    b: HostSnapshotView,
    want: PathKind,
    loose: bool,
)
    requires
        agree_on(a, b, paths),
    ensures
        selected(group, paths, a, want, loose) == selected(group, paths, b, want, loose),
    decreases paths.len(),
{
    if paths.len() > 0 {
        assert forall|p: Seq<char>| #[trigger] paths.drop_last().contains(p) implies a.kind_of(p)
            == b.kind_of(p) by {
            let i = choose|i: int| 0 <= i < paths.drop_last().len() && paths.drop_last()[i] == p;
            assert(paths[i] == p);
            assert(paths.contains(p));
        }
        lemma_same_selection(group, paths.drop_last(), a, b, want, loose);
        assert(paths[paths.len() - 1] == paths.last());
        assert(paths.contains(paths.last()));
    }
}

/// A token function on a file group gives the same under both expanders.
pub proof fn lemma_same_group(
    a: TokenExpanderView,
    b: TokenExpanderView,
    function: TokenFunction,
    token: Seq<char>,
    arg: Seq<char>,
)
    requires
        same_but_disk(a, b),
        agree_on(a.host, b.host, declared_files(a.project.file_groups)),
    ensures
        a.evaluate_group(function, token, arg) == b.evaluate_group(function, token, arg),
{
    let groups = a.project.file_groups;
    match group_index(groups, arg) {
        Some(i) => {
            lemma_group_index_bounds(groups, arg);
            let group = groups[i];
            let loose = a.scope == TokenScope::Outputs;
            assert forall|p: Seq<char>| #[trigger] group.files.contains(p) implies a.host.kind_of(
                p,
            ) == b.host.kind_of(p) by {
                let k = choose|k: int| 0 <= k < group.files.len() && group.files[k] == p;
                lemma_group_files_are_declared(groups, i, k);
            }
            lemma_same_selection(group.id, group.files, a.host, b.host, PathKind::Directory, loose);
            lemma_same_selection(group.id, group.files, a.host, b.host, PathKind::File, loose);
        },
        None => {},
    }
}

/// A token function gives the same under both expanders.
pub proof fn lemma_same_evaluation(
    a: TokenExpanderView,
    b: TokenExpanderView,
    task: TaskView,
    value: Seq<char>,
    depth: nat,
)
    requires
        same_but_disk(a, b),
        agree_on(a.host, b.host, declared_files(a.project.file_groups)),
    ensures
        a.evaluate(task, value, depth) == b.evaluate(task, value, depth),
    decreases depth,
{
    match crate::patterns::first_function(value) {
        None => {},
        Some((start, open, end)) => {
            let token = value.subrange(start, end);
            let arg = value.subrange(open + 1, end - 1);
            match crate::scope::function_named(value.subrange(start + 1, open)) {
                None => {},
                Some(function) => {
                    if crate::scope::allowed_in(function, a.scope) {
                        match function {
                            TokenFunction::In => {
                                match crate::clock::index_value(arg) {
                                    Some(index) => {
                                        if index < task.inputs.len() {
                                            let input = task.inputs[index as int];
                                            match input {
                                                InputPathView::TokenFunc(inner) => {
                                                    if depth > 0 {
                                                        lemma_same_evaluation(
                                                            a,
                                                            b,
                                                            task,
                                                            inner,
                                                            (depth - 1) as nat,
                                                        );
                                                    }
                                                },
                                                _ => {
                                                    match input_relative(
                                                        input,
                                                        a.project.source,
                                                    ) {
                                                        Some(path) => {
                                                            lemma_same_paths(a, b, task, path);
                                                        },
                                                        None => {},
                                                    }
                                                },
                                            }
                                        }
                                    },
                                    None => {},
                                }
                            },
                            TokenFunction::Out => {
                                match crate::clock::index_value(arg) {
                                    Some(index) => {
                                        if index < task.outputs.len() {
                                            let output = task.outputs[index as int];
                                            match output {
                                                OutputPathView::TokenFunc(inner) => {
                                                    if depth > 0 {
                                                        lemma_same_evaluation(
                                                            a,
                                                            b,
                                                            task,
                                                            inner,
                                                            (depth - 1) as nat,
                                                        );
                                                    }
                                                },
                                                _ => {
                                                    match crate::functions::output_relative(
                                                        output,
                                                        a.project.source,
                                                    ) {
                                                        Some(path) => {
                                                            lemma_same_paths(a, b, task, path);
                                                        },
                                                        None => {},
                                                    }
                                                },
                                            }
                                        }
                                    },
                                    None => {},
                                }
                            },
                            TokenFunction::Meta => {},
                            _ => {
                                lemma_same_group(a, b, function, token, arg);
                            },
                        }
                    }
                },
            }
        },
    }
}

/// The first `n` inputs expand to the same under both expanders.
pub proof fn lemma_same_inputs(a: TokenExpanderView, b: TokenExpanderView, task: TaskView, n: int)
    requires
        same_but_disk(a, b),
        agree_on(a.host, b.host, a.probed_paths(task)),
        0 <= n <= task.inputs.len(),
    ensures
        a.inputs_expanded(task, task.inputs.take(n)) == b.inputs_expanded(
            task,
            task.inputs.take(n),
        ),
    decreases n,
{
    lemma_agree_on_both(a, b, task);
    if n > 0 {
        lemma_same_inputs(a, b, task, n - 1);
        assert(task.inputs.take(n).drop_last() =~= task.inputs.take(n - 1));
        let input = task.inputs[n - 1];
        assert(task.inputs.take(n).last() == input);
        match input {
            InputPathView::TokenFunc(function) => {
                lemma_same_evaluation(a, b, task, function, MAX_DEPTH as nat);
            },
            InputPathView::TokenVar(variable) => {
                lemma_same_paths(a, b, task, variable);
            },
            InputPathView::ProjectFile(_) | InputPathView::WorkspaceFile(_) => {
                let path = input_relative(input, a.project.source).unwrap();
                lemma_same_paths(a, b, task, path);
                lemma_input_file_is_listed(a, task, task.inputs, n - 1);
            },
            InputPathView::ProjectGlob(_) | InputPathView::WorkspaceGlob(_) => {
                let path = input_relative(input, a.project.source).unwrap();
                lemma_same_paths(a, b, task, path);
            },
            _ => {},
        }
    }
}

/// Snapshots that agree on the listed paths agree on the declared files
/// and on the input files.
pub proof fn lemma_agree_on_both(a: TokenExpanderView, b: TokenExpanderView, task: TaskView)
    requires
        agree_on(a.host, b.host, a.probed_paths(task)),
    ensures
        agree_on(a.host, b.host, declared_files(a.project.file_groups)),
        agree_on(a.host, b.host, a.input_files(task, task.inputs)),
{
    let declared = declared_files(a.project.file_groups);
    let files = a.input_files(task, task.inputs);
    let all = a.probed_paths(task);
    assert forall|p: Seq<char>| #[trigger] declared.contains(p) implies a.host.kind_of(p)
        == b.host.kind_of(p) by {
        let i = choose|i: int| 0 <= i < declared.len() && declared[i] == p;
        assert(all[i] == p);
        assert(all.contains(p));
    }
    assert forall|p: Seq<char>| #[trigger] files.contains(p) implies a.host.kind_of(p)
        == b.host.kind_of(p) by {
        let i = choose|i: int| 0 <= i < files.len() && files[i] == p;
        assert(all[declared.len() + i] == p);
        assert(all.contains(p));
    }
}

/// The first `n` outputs expand to the same under both expanders.
pub proof fn lemma_same_outputs(a: TokenExpanderView, b: TokenExpanderView, task: TaskView, n: int)
    requires
        same_but_disk(a, b),
        agree_on(a.host, b.host, declared_files(a.project.file_groups)),
        0 <= n <= task.outputs.len(),
    ensures
        a.outputs_expanded(task, task.outputs.take(n)) == b.outputs_expanded(
            task,
            task.outputs.take(n),
        ),
    decreases n,
{
    if n > 0 {
        lemma_same_outputs(a, b, task, n - 1);
        assert(task.outputs.take(n).drop_last() =~= task.outputs.take(n - 1));
        let output = task.outputs[n - 1];
        assert(task.outputs.take(n).last() == output);
        match output {
            OutputPathView::TokenFunc(function) => {
                lemma_same_evaluation(a, b, task, function, MAX_DEPTH as nat);
            },
            OutputPathView::TokenVar(variable) => {
                lemma_same_paths(a, b, task, variable);
            },
            _ => {
                let path = crate::functions::output_relative(output, a.project.source).unwrap();
                lemma_same_paths(a, b, task, path);
            },
        }
    }
}

/// Two expanders that differ only in what their snapshots say of the disk,
/// and whose snapshots agree on the paths listed for the task, evaluate
/// every token function alike and expand the command, the inputs and the
/// outputs of the task alike.
pub proof fn lemma_listed_paths_suffice(a: TokenExpanderView, b: TokenExpanderView, task: TaskView)
    requires
        same_but_disk(a, b),
        agree_on(a.host, b.host, a.probed_paths(task)),
    ensures
        a.probed_paths(task) == b.probed_paths(task),
        forall|value: Seq<char>, depth: nat| #[trigger]
            a.evaluate(task, value, depth) == b.evaluate(task, value, depth),
        a.expand_command(task) == b.expand_command(task),
        a.expand_inputs(task) == b.expand_inputs(task),
        a.expand_outputs(task) == b.expand_outputs(task),
{
    lemma_agree_on_both(a, b, task);
    lemma_same_input_files(a, b, task, task.inputs);
    assert forall|value: Seq<char>, depth: nat| #[trigger]
        a.evaluate(task, value, depth) == b.evaluate(task, value, depth) by {
        lemma_same_evaluation(a, b, task, value, depth);
    }
    let ac = a.in_scope(TokenScope::Command);
    let bc = b.in_scope(TokenScope::Command);
    lemma_same_evaluation(ac, bc, task, task.command, MAX_DEPTH as nat);
    lemma_same_paths(ac, bc, task, task.command);
    match ac.evaluate(task, task.command, MAX_DEPTH as nat) {
        Ok(result) => {
            match (result.token, result.value) {
                (Some(token), Some(v)) => {
                    lemma_same_paths(
                        ac,
                        bc,
                        task,
                        crate::text::replaced(task.command, token, v),
                    );
                },
                _ => {},
            }
        },
        Err(_) => {},
    }
    let ai = a.in_scope(TokenScope::Inputs);
    let bi = b.in_scope(TokenScope::Inputs);
    lemma_same_input_files(a, ai, task, task.inputs);
    assert(ai.probed_paths(task) == a.probed_paths(task));
    lemma_same_inputs(ai, bi, task, task.inputs.len() as int);
    assert(task.inputs.take(task.inputs.len() as int) =~= task.inputs);
    let ao = a.in_scope(TokenScope::Outputs);
    let bo = b.in_scope(TokenScope::Outputs);
    lemma_same_outputs(ao, bo, task, task.outputs.len() as int);
    assert(task.outputs.take(task.outputs.len() as int) =~= task.outputs);
}

} // verus!
