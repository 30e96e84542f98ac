//! What holds of every expansion, whatever the project, the task and the
//! context.
use vstd::prelude::*;
use crate::errors::TokenExpanderErrorView;
use crate::expanded::ExpandedResultView;
use crate::fields::concat;
use crate::functions::{input_relative, output_is_glob, output_relative};
use crate::model::{EntryView, InputPathView, OutputPathView, PathKind, TaskView};
use crate::paths::joined;
use crate::patterns::{first_function, lemma_no_at_no_function};
use crate::scope::{allowed_in, function_named, TokenFunction, TokenScope};
use crate::token_expander::{has_variable, TokenExpanderView, MAX_DEPTH};
use crate::variables::lemma_plain_text_keeps;

verus! {

/// Whether `text` holds neither `@` nor `$`.
pub open spec fn is_plain(text: Seq<char>) -> bool {
    forall|k: int| 0 <= k < text.len() ==> text[k] != '@' && text[k] != '$'
}

/// How many texts the lists of `parts` hold together.
pub open spec fn total_len(parts: Seq<Seq<Seq<char>>>) -> nat
    decreases parts.len(),
{
    if parts.len() == 0 {
        0
    } else {
        total_len(parts.drop_last()) + parts.last().len()
    }
}

/// The expansions of the arguments stand one after another, in the order of
/// the arguments: that of argument `i` starts where those of the arguments
/// before it end, and is unbroken.
pub proof fn lemma_expansion_stands_in_place(parts: Seq<Seq<Seq<char>>>, i: int)
    requires
        0 <= i < parts.len(),
    ensures
        concat(parts).len() == total_len(parts),
        total_len(parts.take(i)) + parts[i].len() <= concat(parts).len(),
        concat(parts).subrange(
            total_len(parts.take(i)) as int,
            (total_len(parts.take(i)) + parts[i].len()) as int,
        ) == parts[i],
    decreases parts.len(),
{
    let before = parts.drop_last();
    lemma_concat_len(parts);
    lemma_concat_len(before);
    if i == parts.len() - 1 {
        assert(parts.take(i) =~= before);
        assert(concat(parts).subrange(
            total_len(before) as int,
            (total_len(before) + parts[i].len()) as int,
        ) =~= parts[i]);
    } else {
        lemma_expansion_stands_in_place(before, i);
        assert(before.take(i) =~= parts.take(i));
        assert(before[i] == parts[i]);
        let at = total_len(parts.take(i)) as int;
        assert(concat(parts).subrange(at, at + parts[i].len()) =~= concat(before).subrange(
            at,
            at + parts[i].len(),
        ));
    }
}

/// The lists of `parts` one after another hold as many texts as the lists
/// hold together.
pub proof fn lemma_concat_len(parts: Seq<Seq<Seq<char>>>)
    ensures
        concat(parts).len() == total_len(parts),
    decreases parts.len(),
{
    if parts.len() > 0 {
        lemma_concat_len(parts.drop_last());
    }
}

/// A text without `@` and `$` goes through every expander of texts as it is:
/// as a command, as a script, as an argument and as a value of the
/// environment. None of them fails on it.
pub proof fn lemma_plain_text_passes(e: TokenExpanderView, task: TaskView, text: Seq<char>)
    requires
        is_plain(text),
    ensures
        !e.has_token_function(text),
        !has_variable(text),
        e.value_error(task, text) is None,
        e.replace_all_variables(task, text) == text,
        task.command == text ==> e.expand_command(task) == Ok::<
            Seq<char>,
            TokenExpanderErrorView,
        >(text),
        forall|passes: nat, r: Result<Seq<char>, TokenExpanderErrorView>|
            #[trigger] e.is_script_outcome(task, text, passes, r) <==> r == Ok::<
                Seq<char>,
                TokenExpanderErrorView,
            >(text),
        forall|out: Seq<Seq<char>>| #[trigger]
            e.is_arg_expansion(task, text, out) <==> out == seq![text],
        forall|out: Seq<char>| #[trigger] e.is_env_value(task, text, out) <==> out == text,
{
    lemma_no_at_no_function(text);
    lemma_plain_text_keeps(e, task, text);
    lemma_plain_text_keeps(e.in_scope(TokenScope::Command), task, text);
}

/// A declared input whose path holds neither `@` nor `$` is put into the
/// result as that path: a glob among the globs, and a file among the files
/// unless it is a directory.
pub proof fn lemma_plain_input_passes(
    e: TokenExpanderView,
    task: TaskView,
    found: ExpandedResultView,
    input: InputPathView,
)
    requires
        input_relative(input, e.project.source) is Some,
        is_plain(input_relative(input, e.project.source).unwrap()),
    ensures
        ({
            let path = input_relative(input, e.project.source).unwrap();
            e.add_input(task, found, input) == Ok::<ExpandedResultView, TokenExpanderErrorView>(
                if input is ProjectGlob || input is WorkspaceGlob {
                    ExpandedResultView { globs: found.globs.push(path), ..found }
                } else if e.host.kind_of(path) == PathKind::Directory {
                    ExpandedResultView { globs: found.globs.push(joined(path, "**/*"@)), ..found }
                } else {
                    ExpandedResultView { files: found.files.push(path), ..found }
                },
            )
        }),
{
    lemma_plain_text_keeps(e, task, input_relative(input, e.project.source).unwrap());
}

/// A declared output whose path holds neither `@` nor `$` is put into the
/// result as that path, among the globs or the files as it was declared.
pub proof fn lemma_plain_output_passes(
    e: TokenExpanderView,
    task: TaskView,
    found: ExpandedResultView,
    output: OutputPathView,
)
    requires
        output_relative(output, e.project.source) is Some,
        is_plain(output_relative(output, e.project.source).unwrap()),
    ensures
        ({
            let path = output_relative(output, e.project.source).unwrap();
            e.add_output(task, found, output) == Ok::<ExpandedResultView, TokenExpanderErrorView>(
                if output_is_glob(output) {
                    ExpandedResultView { globs: found.globs.push(path), ..found }
                } else {
                    ExpandedResultView { files: found.files.push(path), ..found }
                },
            )
        }),
{
    lemma_plain_text_keeps(e, task, output_relative(output, e.project.source).unwrap());
}

/// A declared file among the inputs becomes the glob of all that lies in it
/// if and only if the snapshot knows its path, relative to the workspace and
/// with its tokens replaced, as a directory. Otherwise it stays a file.
pub proof fn lemma_directory_becomes_glob(
    e: TokenExpanderView,
    task: TaskView,
    found: ExpandedResultView,
    input: InputPathView,
)
    requires
        input is ProjectFile || input is WorkspaceFile,
    ensures
        ({
            let file = e.replace_all_variables(
                task,
                input_relative(input, e.project.source).unwrap(),
            );
            let is_dir = e.host.kind_of(file) == PathKind::Directory;
            &&& e.add_input(task, found, input) is Ok
            &&& is_dir <==> e.add_input(task, found, input)->Ok_0.globs == found.globs.push(
                joined(file, "**/*"@),
            )
            &&& !is_dir <==> e.add_input(task, found, input)->Ok_0.files == found.files.push(file)
            &&& is_dir ==> e.add_input(task, found, input)->Ok_0.files == found.files
            &&& !is_dir ==> e.add_input(task, found, input)->Ok_0.globs == found.globs
        }),
{
    let file = e.replace_all_variables(task, input_relative(input, e.project.source).unwrap());
    assert(found.globs.push(joined(file, "**/*"@)).len() != found.globs.len());
    assert(found.files.push(file).len() != found.files.len());
}

/// A token function that the scope does not allow fails with a scope error
/// that names the target, the token and the scope, whatever its argument
/// is. So `@in` fails in the environment, and `@envs` among the arguments.
pub proof fn lemma_scope_is_checked(
    e: TokenExpanderView,
    task: TaskView,
    value: Seq<char>,
    depth: nat,
)
    requires
        first_function(value) is Some,
        ({
            let (start, open, end) = first_function(value).unwrap();
            match function_named(value.subrange(start + 1, open)) {
                Some(function) => !allowed_in(function, e.scope),
                None => false,
            }
        }),
    ensures
        ({
            let (start, open, end) = first_function(value).unwrap();
            e.evaluate(task, value, depth) == Err::<ExpandedResultView, TokenExpanderErrorView>(
                TokenExpanderErrorView::InvalidTokenScope {
                    target: task.target.text(),
                    token: value.subrange(start, end),
                    scope: e.scope.label_text(),
                },
            )
        }),
{
}

/// `@in` is allowed in scripts and arguments only, and `@envs` in inputs
/// only.
pub proof fn lemma_in_and_envs_scopes(scope: TokenScope)
    ensures
        allowed_in(TokenFunction::In, scope) <==> scope == TokenScope::Script || scope
            == TokenScope::Args,
        allowed_in(TokenFunction::Out, scope) <==> scope == TokenScope::Script || scope
            == TokenScope::Args,
        allowed_in(TokenFunction::Envs, scope) <==> scope == TokenScope::Inputs,
        !allowed_in(TokenFunction::In, TokenScope::Env),
        !allowed_in(TokenFunction::Envs, TokenScope::Args),
{
}

/// For a task that runs in the workspace root, what a token function gave is
/// written in one way only.
pub proof fn lemma_rendering_is_determined(
    e: TokenExpanderView,
    task: TaskView,
    result: ExpandedResultView,
    a: Seq<Seq<char>>,
    b: Seq<Seq<char>>,
)
    requires
        task.options.run_from_workspace_root,
        e.renders(task, result, a),
        e.renders(task, result, b),
    ensures
        a == b,
{
    let files = result.files.len() as int;
    let globs = result.globs.len() as int;
    assert forall|i: int| 0 <= i < a.len() implies a[i] == b[i] by {
        if i < files {
            assert(e.is_rendering(task, result.files[i], a[i]));
            assert(e.is_rendering(task, result.files[i], b[i]));
        } else if i < files + globs {
            let j = i - files;
            assert(e.is_rendering(task, result.globs[j], a[files + j]));
            assert(e.is_rendering(task, result.globs[j], b[files + j]));
        } else {
            assert(a[i] == a.last());
            assert(b[i] == b.last());
        }
    }
    assert(a =~= b);
}

/// For a task that runs in the workspace root, two expansions of the same
/// arguments by the same expander are equal.
pub proof fn lemma_args_are_determined(
    e: TokenExpanderView,
    task: TaskView,
    args: Seq<Seq<char>>,
    a: Seq<Seq<Seq<char>>>,
    b: Seq<Seq<Seq<char>>>,
)
    requires
        task.options.run_from_workspace_root,
        e.is_args_expansion(task, args, a),
        e.is_args_expansion(task, args, b),
    ensures
        a == b,
        concat(a) == concat(b),
{
    assert forall|i: int| 0 <= i < a.len() implies a[i] == b[i] by {
        assert(e.is_arg_expansion(task, args[i], a[i]));
        assert(e.is_arg_expansion(task, args[i], b[i]));
        if e.has_token_function(args[i]) {
            let result = e.evaluate(task, args[i], MAX_DEPTH as nat)->Ok_0;
            lemma_rendering_is_determined(e, task, result, a[i], b[i]);
        }
    }
    assert(a =~= b);
}

/// For a task that runs in the workspace root, two expansions of the same
/// environment by the same expander are equal.
pub proof fn lemma_env_is_determined(
    e: TokenExpanderView,
    task: TaskView,
    env: Seq<EntryView>,
    a: Seq<EntryView>,
    b: Seq<EntryView>,
)
    requires
        task.options.run_from_workspace_root,
        e.is_env_expansion(task, env, a),
        e.is_env_expansion(task, env, b),
    ensures
        a == b,
{
    assert forall|i: int| 0 <= i < a.len() implies a[i] == b[i] by {
        assert(a[i].key == env[i].key && e.is_env_value(task, env[i].value, a[i].value));
        assert(b[i].key == env[i].key && e.is_env_value(task, env[i].value, b[i].value));
        let value = env[i].value;
        if e.has_token_function(value) {
            let result = e.evaluate(task, value, MAX_DEPTH as nat)->Ok_0;
            let x = choose|items: Seq<Seq<char>>| #[trigger]
                e.renders(task, result, items) && a[i].value == crate::args::joined_with(
                    items,
                    ","@,
                );
            let y = choose|items: Seq<Seq<char>>| #[trigger]
                e.renders(task, result, items) && b[i].value == crate::args::joined_with(
                    items,
                    ","@,
                );
            lemma_rendering_is_determined(e, task, result, x, y);
        }
    }
    assert(a =~= b);
}

/// For a task that runs in the workspace root, two expansions of the same
/// script by the same expander end in the same way.
pub proof fn lemma_script_is_determined(
    e: TokenExpanderView,
    task: TaskView,
    script: Seq<char>,
    passes: nat,
    a: Result<Seq<char>, TokenExpanderErrorView>,
    b: Result<Seq<char>, TokenExpanderErrorView>,
)
    requires
        task.options.run_from_workspace_root,
        e.is_script_outcome(task, script, passes, a),
        e.is_script_outcome(task, script, passes, b),
    ensures
        a == b,
    decreases passes,
{
    if passes == 0 || !e.has_token_function(script) {
    } else {
        match e.evaluate(task, script, MAX_DEPTH as nat) {
            Err(_) => {},
            Ok(result) => {
                let x = choose|items: Seq<Seq<char>>| #[trigger]
                    e.renders(task, result, items) && e.is_script_outcome(
                        task,
                        crate::text::replaced(
                            script,
                            result.token.unwrap(),
                            crate::args::shell_joined(items),
                        ),
                        (passes - 1) as nat,
                        a,
                    );
                let y = choose|items: Seq<Seq<char>>| #[trigger]
                    e.renders(task, result, items) && e.is_script_outcome(
                        task,
                        crate::text::replaced(
                            script,
                            result.token.unwrap(),
                            crate::args::shell_joined(items),
                        ),
                        (passes - 1) as nat,
                        b,
                    );
                lemma_rendering_is_determined(e, task, result, x, y);
                lemma_script_is_determined(
                    e,
                    task,
                    crate::text::replaced(
                        script,
                        result.token.unwrap(),
                        crate::args::shell_joined(x),
                    ),
                    (passes - 1) as nat,
                    a,
                    b,
                );
            },
        }
    }
}


/// What a field expands to does not depend on the field that the expander
/// worked on before: the scope is all that a call leaves behind, and every
/// field expander sets its own.
pub proof fn lemma_earlier_calls_do_not_matter(
    e: TokenExpanderView,
    task: TaskView,
    scope: TokenScope,
)
    ensures
        e.in_scope(scope).expand_command(task) == e.expand_command(task),
        e.in_scope(scope).expand_inputs(task) == e.expand_inputs(task),
        e.in_scope(scope).expand_outputs(task) == e.expand_outputs(task),
        e.in_scope(scope).in_scope(TokenScope::Script) == e.in_scope(TokenScope::Script),
        e.in_scope(scope).in_scope(TokenScope::Args) == e.in_scope(TokenScope::Args),
        e.in_scope(scope).in_scope(TokenScope::Env) == e.in_scope(TokenScope::Env),
{
    assert(e.in_scope(scope).in_scope(TokenScope::Command) == e.in_scope(TokenScope::Command));
    assert(e.in_scope(scope).in_scope(TokenScope::Inputs) == e.in_scope(TokenScope::Inputs));
    assert(e.in_scope(scope).in_scope(TokenScope::Outputs) == e.in_scope(TokenScope::Outputs));
}

} // verus!
