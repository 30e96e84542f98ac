//! Every path that expansion gives is relative to the workspace and has `/`
//! between its parts, as long as what it reads is.
use vstd::prelude::*;
use crate::env_substitute::{reference_value, substituted_from};

use crate::expanded::ExpandedResultView;
use crate::file_group::{common_len, common_start, fixed_part, fixed_parts, parent, selected};
use crate::functions::{input_relative, output_relative};
use crate::model::{
    lookup, EntryView, FileGroupView, HostSnapshotView, InputPathView, OutputPathView, PathKind,
    TaskView,
};
use crate::paths::{is_slashed, joined};
use crate::patterns::{first_variable, lemma_variable_from_is_leftmost};
use crate::scope::TokenScope;
use crate::token_expander::{TokenExpanderView, MAX_DEPTH, MAX_PASSES};

verus! {

/// Whether `path` is relative to the workspace with `/` between its parts:
/// it holds no `\` and does not start with `/`.
pub open spec fn is_workspace_relative(path: Seq<char>) -> bool {
    is_slashed(path) && (path.len() == 0 || path[0] != '/')
}

/// Whether every one of `paths` is relative to the workspace.
pub open spec fn all_relative(paths: Seq<Seq<char>>) -> bool {
    forall|i: int| 0 <= i < paths.len() ==> is_workspace_relative(#[trigger] paths[i])
}

/// Whether every file and every glob of `result` is relative to the
/// workspace.
pub open spec fn result_is_relative(result: ExpandedResultView) -> bool {
    all_relative(result.files) && all_relative(result.globs)
}

/// Whether `path` is relative to the workspace and does not start with a
/// token or a reference, so that no replacement can put a `/` at its front.
pub open spec fn is_declared_relative(path: Seq<char>) -> bool {
    is_slashed(path) && (path.len() == 0 || (path[0] != '/' && path[0] != '$'))
}

/// Whether the path of `input` can be relied on: no `\` in it, and a path
/// that is relative to the workspace starts with neither `/` nor `$`.
pub open spec fn input_is_sound(input: InputPathView) -> bool {
    match input {
        InputPathView::ProjectFile(p) | InputPathView::ProjectGlob(p) => is_slashed(p),
        InputPathView::WorkspaceFile(p) | InputPathView::WorkspaceGlob(p) => is_declared_relative(
            p,
        ),
        InputPathView::TokenVar(v) => is_slashed(v),
        _ => true,
    }
}

/// Whether the path of `output` can be relied on, as for an input.
pub open spec fn output_is_sound(output: OutputPathView) -> bool {
    match output {
        OutputPathView::ProjectFile(p) | OutputPathView::ProjectGlob(p) => is_slashed(p),
        OutputPathView::WorkspaceFile(p) | OutputPathView::WorkspaceGlob(p) =>
            is_declared_relative(p),
        OutputPathView::TokenVar(v) => is_slashed(v),
        _ => true,
    }
}

/// Whether no value that a replacement can bring in holds a `\`: neither
/// what a token variable stands for, nor a value of the task's environment.
pub open spec fn values_are_slashed(e: TokenExpanderView, task: TaskView) -> bool {
    &&& forall|name: Seq<char>|
        match #[trigger] e.variable_value(task, name) {
            Some(v) => is_slashed(v),
            None => true,
        }
    &&& forall|i: int| 0 <= i < task.env.len() ==> is_slashed((#[trigger] task.env[i]).value)
}

/// Whether all that expansion reads is sound: the project's directory is
/// relative to the workspace, not empty and starts with no token; the file
/// groups declare paths relative to the workspace; the inputs and outputs of
/// the task are sound; and no replacement brings in a `\`.
pub open spec fn reads_sound_paths(e: TokenExpanderView, task: TaskView) -> bool {
    &&& is_declared_relative(e.project.source)
    &&& e.project.source.len() > 0
    &&& values_are_slashed(e, task)
    &&& forall|i: int| 0 <= i < task.inputs.len() ==> input_is_sound(#[trigger] task.inputs[i])
    &&& forall|i: int| 0 <= i < task.outputs.len() ==> output_is_sound(#[trigger] task.outputs[i])
    &&& forall|i: int|
        0 <= i < e.project.file_groups.len() ==> all_relative(
            (#[trigger] e.project.file_groups[i]).files,
        ) && all_relative(e.project.file_groups[i].globs)
}

/// Joining keeps `/` as the only separator, and a base that is not empty
/// keeps its first character.
pub proof fn lemma_joined_is_slashed(base: Seq<char>, part: Seq<char>)
    requires
        is_slashed(base),
        is_slashed(part),
    ensures
        is_slashed(joined(base, part)),
        base.len() > 0 ==> joined(base, part).len() > 0 && joined(base, part)[0] == base[0],
        base.len() == 0 && is_workspace_relative(part) ==> joined(base, part) == part,
{
    if base.len() == 0 && is_workspace_relative(part) {
        assert(joined(base, part) =~= part);
    }
}

/// A value that the environment declares is the value of one of its
/// entries.
pub proof fn lemma_lookup_is_an_entry(entries: Seq<EntryView>, key: Seq<char>)
    requires
        lookup(entries, key) is Some,
    ensures
        exists|i: int| 0 <= i < entries.len() && (#[trigger] entries[i]).value == lookup(
            entries,
            key,
        ).unwrap(),
    decreases entries.len(),
{
    if entries[0].key == key {
        assert(entries[0].value == lookup(entries, key).unwrap());
    } else {
        lemma_lookup_is_an_entry(entries.drop_first(), key);
        let i = choose|i: int|
            0 <= i < entries.drop_first().len() && (#[trigger] entries.drop_first()[i]).value
                == lookup(entries.drop_first(), key).unwrap();
        assert(entries[i + 1].value == lookup(entries, key).unwrap());
    }
}

/// Replacing the leftmost token variable brings in no `\`, and leaves the
/// first character alone unless it is a `$`.
pub proof fn lemma_replace_variable_is_slashed(
    e: TokenExpanderView,
    task: TaskView,
    value: Seq<char>,
)
    requires
        values_are_slashed(e, task),
        is_slashed(value),
    ensures
        is_slashed(e.replace_variable(task, value)),
        value.len() > 0 && value[0] != '$' ==> e.replace_variable(task, value).len() > 0
            && e.replace_variable(task, value)[0] == value[0],
{
    lemma_variable_from_is_leftmost(value, 0);
    match first_variable(value) {
        Some((start, end)) => {
            match e.variable_value(task, value.subrange(start + 1, end)) {
                Some(v) => {
                    assert(is_slashed(v));
                    let out = e.replace_variable(task, value);
                    assert(out == value.subrange(0, start) + v + value.subrange(
                        end,
                        value.len() as int,
                    ));
                    assert forall|k: int| 0 <= k < out.len() implies out[k] != '\\' by {
                        if k < start {
                            assert(out[k] == value[k]);
                        } else if k < start + v.len() {
                            assert(out[k] == v[k - start]);
                        } else {
                            assert(out[k] == value[k - start - v.len() + end]);
                        }
                    }
                    if value.len() > 0 && value[0] != '$' {
                        assert(start > 0);
                        assert(out[0] == value[0]);
                    }
                },
                None => {},
            }
        },
        None => {},
    }
}

/// Replacing token variables again and again brings in no `\`, and leaves
/// the first character alone unless it is a `$`.
pub proof fn lemma_replace_variables_is_slashed(
    e: TokenExpanderView,
    task: TaskView,
    value: Seq<char>,
    passes: nat,
)
    requires
        values_are_slashed(e, task),
        is_slashed(value),
    ensures
        is_slashed(e.replace_variables(task, value, passes)),
        value.len() > 0 && value[0] != '$' ==> e.replace_variables(task, value, passes).len() > 0
            && e.replace_variables(task, value, passes)[0] == value[0],
    decreases passes,
{
    if passes > 0 {
        lemma_replace_variable_is_slashed(e, task, value);
        lemma_replace_variables_is_slashed(
            e,
            task,
            e.replace_variable(task, value),
            (passes - 1) as nat,
        );
    }
}

/// Filling in environment references brings in no `\`, and leaves the
/// first character alone unless it is a `$`.
pub proof fn lemma_substituted_is_slashed(s: Seq<char>, env: Seq<EntryView>, at: int)
    requires
        0 <= at <= s.len(),
        is_slashed(s),
        forall|i: int| 0 <= i < env.len() ==> is_slashed((#[trigger] env[i]).value),
    ensures
        is_slashed(substituted_from(s, env, at)),
        at < s.len() && s[at] != '$' ==> substituted_from(s, env, at).len() > 0
            && substituted_from(s, env, at)[0] == s[at],
    decreases s.len() - at,
{
    if at < s.len() {
        match crate::patterns::env_reference_at(s, at) {
            Some(end) => {
                lemma_substituted_is_slashed(s, env, end);
                let piece = reference_value(s, env, at, end);
                let name = s.subrange(at + 2, end - 1);
                if lookup(env, name) is Some {
                    lemma_lookup_is_an_entry(env, name);
                }
                assert(is_slashed(piece));
                let rest = substituted_from(s, env, end);
                let out = piece + rest;
                assert forall|k: int| 0 <= k < out.len() implies out[k] != '\\' by {
                    if k < piece.len() {
                        assert(out[k] == piece[k]);
                    } else {
                        assert(out[k] == rest[k - piece.len()]);
                    }
                }
            },
            None => {
                lemma_substituted_is_slashed(s, env, at + 1);
                let rest = substituted_from(s, env, at + 1);
                let out = seq![s[at]] + rest;
                assert forall|k: int| 0 <= k < out.len() implies out[k] != '\\' by {
                    if k >= 1 {
                        assert(out[k] == rest[k - 1]);
                    }
                }
                assert(out[0] == s[at]);
            },
        }
    }
}

/// A path that is relative to the workspace and starts with no token is
/// relative to the workspace after all replacements.
pub proof fn lemma_replaced_path_is_relative(e: TokenExpanderView, task: TaskView, path: Seq<char>)
    requires
        values_are_slashed(e, task),
        is_declared_relative(path),
    ensures
        is_workspace_relative(e.replace_all_variables(task, path)),
{
    lemma_replace_variables_is_slashed(e, task, path, MAX_PASSES as nat);
    let replaced = e.replace_variables(task, path, MAX_PASSES as nat);
    lemma_substituted_is_slashed(replaced, task.env, 0);
    if path.len() == 0 {
        crate::patterns::lemma_no_dollar_no_variable(path);
    }
}

/// What is chosen among declared paths is declared.
pub proof fn lemma_selected_is_relative(
    group: Seq<char>,
    paths: Seq<Seq<char>>,
    host: HostSnapshotView,
    want: PathKind,
    loose: bool,
)
    requires
        all_relative(paths),
    ensures
        match selected(group, paths, host, want, loose) {
            Ok(found) => all_relative(found),
            Err(_) => true,
        },
    decreases paths.len(),
{
    if paths.len() > 0 {
        assert forall|i: int| 0 <= i < paths.drop_last().len() implies is_workspace_relative(
            #[trigger] paths.drop_last()[i],
        ) by {
            assert(paths.drop_last()[i] == paths[i]);
        }
        lemma_selected_is_relative(group, paths.drop_last(), host, want, loose);
        assert(is_workspace_relative(paths.last()));
    }
}

/// What many paths start with in common is a front part of the first of
/// them.
pub proof fn lemma_common_start_is_front(paths: Seq<Seq<char>>)
    requires
        paths.len() > 0,
    ensures
        common_start(paths).len() <= paths[0].len(),
        common_start(paths) == paths[0].subrange(0, common_start(paths).len() as int),
    decreases paths.len(),
{
    if paths.len() == 1 {
        assert(paths[0].subrange(0, paths[0].len() as int) =~= paths[0]);
    } else {
        lemma_common_start_is_front(paths.drop_last());
        let before = common_start(paths.drop_last());
        lemma_common_len_bound(before, paths.last());
        assert(paths.drop_last()[0] == paths[0]);
        assert(common_start(paths) =~= paths[0].subrange(0, common_start(paths).len() as int));
    }
}

/// Two texts have no more in common than either is long.
pub proof fn lemma_common_len_bound(a: Seq<char>, b: Seq<char>)
    ensures
        common_len(a, b) <= a.len(),
        common_len(a, b) <= b.len(),
    decreases a.len(),
{
    if a.len() > 0 && b.len() > 0 && a[0] == b[0] {
        lemma_common_len_bound(a.drop_first(), b.drop_first());
    }
}

/// The directory of a path is a front part of it.
pub proof fn lemma_parent_is_front(path: Seq<char>)
    ensures
        parent(path).len() <= path.len(),
        parent(path) == path.subrange(0, parent(path).len() as int),
    decreases path.len(),
{
    if path.len() == 0 {
        assert(parent(path) =~= path.subrange(0, 0));
    } else if path.last() == '/' {
        assert(path.drop_last() =~= path.subrange(0, path.len() - 1));
    } else {
        lemma_parent_is_front(path.drop_last());
        assert(parent(path) =~= path.subrange(0, parent(path).len() as int));
    }
}

/// The root of a group whose paths are relative to the workspace is
/// relative to the workspace.
pub proof fn lemma_root_is_relative(group: FileGroupView, source: Seq<char>)
    requires
        all_relative(group.files),
        all_relative(group.globs),
        is_workspace_relative(source),
    ensures
        match group.root(source) {
            Ok(dir) => is_workspace_relative(dir),
            Err(_) => true,
        },
{
    let paths = group.files + fixed_parts(group.globs);
    if paths.len() > 0 {
        lemma_common_start_is_front(paths);
        let common = common_start(paths);
        lemma_parent_is_front(common);
        let dir = parent(common);
        let first = paths[0];
        if group.files.len() > 0 {
            assert(first == group.files[0]);
        } else {
            assert(first == fixed_part(group.globs[0]));
            crate::patterns::lemma_run_end_bounds(
                group.globs[0],
                0,
                crate::patterns::CharClass::Fixed,
            );
            assert(is_workspace_relative(group.globs[0]));
        }
        assert(is_workspace_relative(first));
        assert forall|k: int| 0 <= k < dir.len() implies dir[k] == first[k] by {
            assert(dir[k] == common[k]);
            assert(common[k] == first[k]);
        }
        assert(is_workspace_relative(dir));
    }
}

/// What a token function on a file group gives is relative to the
/// workspace.
pub proof fn lemma_group_is_relative(
    e: TokenExpanderView,
    task: TaskView,
    function: crate::scope::TokenFunction,
    token: Seq<char>,
    arg: Seq<char>,
)
    requires
        reads_sound_paths(e, task),
    ensures
        match e.evaluate_group(function, token, arg) {
            Ok(result) => result_is_relative(result),
            Err(_) => true,
        },
{
    match crate::model::group_index(e.project.file_groups, arg) {
        Some(i) => {
            lemma_group_index_bounds(e.project.file_groups, arg);
            let group = e.project.file_groups[i];
            assert(all_relative(group.files) && all_relative(group.globs));
            let loose = e.scope == TokenScope::Outputs;
            lemma_root_is_relative(group, e.project.source);
            lemma_selected_is_relative(group.id, group.files, e.host, PathKind::Directory, loose);
            lemma_selected_is_relative(group.id, group.files, e.host, PathKind::File, loose);
        },
        None => {},
    }
}

/// The group that is found is one of the groups.
pub proof fn lemma_group_index_bounds(groups: Seq<FileGroupView>, id: Seq<char>)
    requires
        crate::model::group_index(groups, id) is Some,
    ensures
        0 <= crate::model::group_index(groups, id).unwrap() < groups.len(),
        groups[crate::model::group_index(groups, id).unwrap()].id == id,
    decreases groups.len(),
{
    if groups.len() > 0 {
        if groups.last().id == id && crate::model::group_index(groups.drop_last(), id) is None {
        } else {
            lemma_group_index_bounds(groups.drop_last(), id);
        }
    }
}

/// The path of a sound input is relative to the workspace after all
/// replacements.
pub proof fn lemma_input_path_is_relative(
    e: TokenExpanderView,
    task: TaskView,
    input: InputPathView,
)
    requires
        reads_sound_paths(e, task),
        input_is_sound(input),
        input_relative(input, e.project.source) is Some,
    ensures
        is_workspace_relative(
            e.replace_all_variables(task, input_relative(input, e.project.source).unwrap()),
        ),
{
    match input {
        InputPathView::ProjectFile(p) | InputPathView::ProjectGlob(p) => {
            lemma_joined_is_slashed(e.project.source, p);
        },
        _ => {},
    }
    lemma_replaced_path_is_relative(e, task, input_relative(input, e.project.source).unwrap());
}

/// The path of a sound output is relative to the workspace after all
/// replacements.
pub proof fn lemma_output_path_is_relative(
    e: TokenExpanderView,
    task: TaskView,
    output: OutputPathView,
)
    requires
        reads_sound_paths(e, task),
        output_is_sound(output),
        output_relative(output, e.project.source) is Some,
    ensures
        is_workspace_relative(
            e.replace_all_variables(task, output_relative(output, e.project.source).unwrap()),
        ),
{
    match output {
        OutputPathView::ProjectFile(p) | OutputPathView::ProjectGlob(p) => {
            lemma_joined_is_slashed(e.project.source, p);
        },
        _ => {},
    }
    lemma_replaced_path_is_relative(e, task, output_relative(output, e.project.source).unwrap());
}

/// Every file and every glob that a token function gives is relative to
/// the workspace with `/` between its parts, where all that expansion reads
/// is sound.
pub proof fn lemma_evaluated_paths_are_relative(
    e: TokenExpanderView,
    task: TaskView,
    value: Seq<char>,
    depth: nat,
)
    requires
        reads_sound_paths(e, task),
    ensures
        match e.evaluate(task, value, depth) {
            Ok(result) => result_is_relative(result),
            Err(_) => true,
        },
    decreases depth,
{
    match crate::patterns::first_function(value) {
        None => {},
        Some((start, open, end)) => {
            let token = value.subrange(start, end);
            let arg = value.subrange(open + 1, end - 1);
            match crate::scope::function_named(value.subrange(start + 1, open)) {
                None => {},
                Some(function) => {
                    if crate::scope::allowed_in(function, e.scope) {
                        match function {
                            crate::scope::TokenFunction::In => {
                                match crate::clock::index_value(arg) {
                                    Some(index) => {
                                        if index < task.inputs.len() {
                                            let input = task.inputs[index as int];
                                            assert(input_is_sound(input));
                                            match input {
                                                InputPathView::TokenFunc(inner) => {
                                                    if depth > 0 {
                                                        lemma_evaluated_paths_are_relative(
                                                            e,
                                                            task,
                                                            inner,
                                                            (depth - 1) as nat,
                                                        );
                                                    }
                                                },
                                                InputPathView::ProjectFile(_)
                                                | InputPathView::WorkspaceFile(_)
                                                | InputPathView::ProjectGlob(_)
                                                | InputPathView::WorkspaceGlob(_) => {
                                                    lemma_input_path_is_relative(e, task, input);
                                                },
                                                _ => {},
                                            }
                                        }
                                    },
                                    None => {},
                                }
                            },
                            crate::scope::TokenFunction::Out => {
                                match crate::clock::index_value(arg) {
                                    Some(index) => {
                                        if index < task.outputs.len() {
                                            let output = task.outputs[index as int];
                                            assert(output_is_sound(output));
                                            match output {
                                                OutputPathView::TokenFunc(inner) => {
                                                    if depth > 0 {
                                                        lemma_evaluated_paths_are_relative(
                                                            e,
                                                            task,
                                                            inner,
                                                            (depth - 1) as nat,
                                                        );
                                                    }
                                                },
                                                OutputPathView::ProjectFile(_)
                                                | OutputPathView::WorkspaceFile(_)
                                                | OutputPathView::ProjectGlob(_)
                                                | OutputPathView::WorkspaceGlob(_) => {
                                                    lemma_output_path_is_relative(e, task, output);
                                                },
                                                _ => {},
                                            }
                                        }
                                    },
                                    None => {},
                                }
                            },
                            crate::scope::TokenFunction::Meta => {},
                            _ => {
                                lemma_group_is_relative(e, task, function, token, arg);
                            },
                        }
                    }
                },
            }
        },
    }
}

/// Adding a sound input to a result whose paths are relative to the
/// workspace gives such a result.
pub proof fn lemma_added_input_is_relative(
    e: TokenExpanderView,
    task: TaskView,
    found: ExpandedResultView,
    input: InputPathView,
)
    requires
        reads_sound_paths(e, task),
        input_is_sound(input),
        result_is_relative(found),
    ensures
        match e.add_input(task, found, input) {
            Ok(result) => result_is_relative(result),
            Err(_) => true,
        },
{
    match input {
        InputPathView::TokenFunc(function) => {
            lemma_evaluated_paths_are_relative(e, task, function, MAX_DEPTH as nat);
        },
        InputPathView::TokenVar(variable) => {
            lemma_replace_variable_is_slashed(e, task, variable);
            lemma_joined_is_slashed(e.project.source, e.replace_variable(task, variable));
        },
        InputPathView::ProjectFile(_) | InputPathView::WorkspaceFile(_) => {
            lemma_input_path_is_relative(e, task, input);
            let file = e.replace_all_variables(
                task,
                input_relative(input, e.project.source).unwrap(),
            );
            reveal_strlit("**/*");
            assert(is_workspace_relative("**/*"@));
            lemma_joined_is_slashed(file, "**/*"@);
        },
        InputPathView::ProjectGlob(_) | InputPathView::WorkspaceGlob(_) => {
            lemma_input_path_is_relative(e, task, input);
        },
        _ => {},
    }
}

/// Adding a sound output to a result whose paths are relative to the
/// workspace gives such a result.
pub proof fn lemma_added_output_is_relative(
    e: TokenExpanderView,
    task: TaskView,
    found: ExpandedResultView,
    output: OutputPathView,
)
    requires
        reads_sound_paths(e, task),
        output_is_sound(output),
        result_is_relative(found),
    ensures
        match e.add_output(task, found, output) {
            Ok(result) => result_is_relative(result),
            Err(_) => true,
        },
{
    match output {
        OutputPathView::TokenFunc(function) => {
            lemma_evaluated_paths_are_relative(e, task, function, MAX_DEPTH as nat);
        },
        OutputPathView::TokenVar(variable) => {
            lemma_replace_variable_is_slashed(e, task, variable);
            lemma_joined_is_slashed(e.project.source, e.replace_variable(task, variable));
        },
        _ => {
            lemma_output_path_is_relative(e, task, output);
        },
    }
}

/// The first `n` inputs of a task expand to paths that are relative to the
/// workspace.
pub proof fn lemma_inputs_are_relative(e: TokenExpanderView, task: TaskView, n: int)
    requires
        reads_sound_paths(e, task),
        0 <= n <= task.inputs.len(),
    ensures
        match e.inputs_expanded(task, task.inputs.take(n)) {
            Ok(result) => result_is_relative(result),
            Err(_) => true,
        },
    decreases n,
{
    if n > 0 {
        lemma_inputs_are_relative(e, task, n - 1);
        assert(task.inputs.take(n).drop_last() =~= task.inputs.take(n - 1));
        assert(task.inputs.take(n).last() == task.inputs[n - 1]);
        match e.inputs_expanded(task, task.inputs.take(n - 1)) {
            Ok(found) => {
                lemma_added_input_is_relative(e, task, found, task.inputs[n - 1]);
            },
            Err(_) => {},
        }
    }
}

/// The first `n` outputs of a task expand to paths that are relative to the
/// workspace.
pub proof fn lemma_outputs_are_relative(e: TokenExpanderView, task: TaskView, n: int)
    requires
        reads_sound_paths(e, task),
        0 <= n <= task.outputs.len(),
    ensures
        match e.outputs_expanded(task, task.outputs.take(n)) {
            Ok(result) => result_is_relative(result),
            Err(_) => true,
        },
    decreases n,
{
    if n > 0 {
        lemma_outputs_are_relative(e, task, n - 1);
        assert(task.outputs.take(n).drop_last() =~= task.outputs.take(n - 1));
        assert(task.outputs.take(n).last() == task.outputs[n - 1]);
        match e.outputs_expanded(task, task.outputs.take(n - 1)) {
            Ok(found) => {
                lemma_added_output_is_relative(e, task, found, task.outputs[n - 1]);
            },
            Err(_) => {},
        }
    }
}

/// What is read stays sound when the expander turns to another field.
pub proof fn lemma_sound_in_every_scope(e: TokenExpanderView, task: TaskView, scope: TokenScope)
    requires
        reads_sound_paths(e, task),
    ensures
        reads_sound_paths(e.in_scope(scope), task),
{
    let other = e.in_scope(scope);
    assert forall|name: Seq<char>|
        match #[trigger] other.variable_value(task, name) {
            Some(v) => is_slashed(v),
            None => true,
        } by {
        assert(other.variable_value(task, name) == e.variable_value(task, name));
    }
}

/// Every path in what a token function gives, and in what the inputs and
/// the outputs of a task expand to, is relative to the workspace with `/`
/// between its parts, where all that expansion reads is sound.
pub proof fn lemma_paths_are_workspace_relative(e: TokenExpanderView, task: TaskView)
    requires
        reads_sound_paths(e, task),
    ensures
        forall|value: Seq<char>, depth: nat|
            match #[trigger] e.evaluate(task, value, depth) {
                Ok(result) => result_is_relative(result),
                Err(_) => true,
            },
        match e.expand_inputs(task) {
            Ok(result) => result_is_relative(result),
            Err(_) => true,
        },
        match e.expand_outputs(task) {
            Ok(result) => result_is_relative(result),
            Err(_) => true,
        },
{
    assert forall|value: Seq<char>, depth: nat|
        match #[trigger] e.evaluate(task, value, depth) {
            Ok(result) => result_is_relative(result),
            Err(_) => true,
        } by {
        lemma_evaluated_paths_are_relative(e, task, value, depth);
    }
    lemma_sound_in_every_scope(e, task, TokenScope::Inputs);
    lemma_inputs_are_relative(e.in_scope(TokenScope::Inputs), task, task.inputs.len() as int);
    assert(task.inputs.take(task.inputs.len() as int) =~= task.inputs);
    lemma_sound_in_every_scope(e, task, TokenScope::Outputs);
    lemma_outputs_are_relative(e.in_scope(TokenScope::Outputs), task, task.outputs.len() as int);
    assert(task.outputs.take(task.outputs.len() as int) =~= task.outputs);
}

} // verus!
