//! The fields of a task, expanded: command, script, arguments, environment,
//! inputs and outputs.
use vstd::prelude::*;
use vstd::string::*;
use crate::args::{join_args, join_with, joined_with, shell_joined};
use crate::env_glob::{collect_matching, glob_expression, matching_names, regex_compiles};
use crate::errors::{TokenExpanderError, TokenExpanderErrorView};
use crate::expanded::{extend_texts, push_text, ExpandedResult, ExpandedResultView};
use crate::functions::{input_relative, outcome, output_is_glob, output_relative};
use crate::model::{
    views, Entry, EntryView, InputPath, InputPathView, OutputPath, OutputPathView, PathKind,
    Task, TaskView,
};
use crate::paths::{join_path, joined};
use crate::patterns::first_function;
use crate::scope::TokenScope;
use crate::text::{replace_all, replaced};
use crate::token_expander::{
    has_variable, TokenExpander, TokenExpanderView, MAX_DEPTH, MAX_PASSES,
};

verus! {

/// The model of a text or an error.
pub open spec fn text_outcome(r: Result<String, TokenExpanderError>) -> Result<
    Seq<char>,
    TokenExpanderErrorView,
> {
    match r {
        Ok(s) => Ok(s@),
        Err(e) => Err(e@),
    }
}

/// The values of `entries`, in order.
pub open spec fn values_of(entries: Seq<EntryView>) -> Seq<Seq<char>> {
    Seq::new(entries.len(), |i: int| entries[i].value)
}

/// The lists of `parts` one after another.
pub open spec fn concat(parts: Seq<Seq<Seq<char>>>) -> Seq<Seq<char>>
    decreases parts.len(),
{
    if parts.len() == 0 {
        seq![]
    } else {
        concat(parts.drop_last()) + parts.last()
    }
}

/// Whether every environment pattern among the inputs makes a regular
/// expression.
pub open spec fn env_globs_compile(inputs: Seq<InputPathView>) -> bool {
    forall|i: int|
        0 <= i < inputs.len() ==> match #[trigger] inputs[i] {
            InputPathView::EnvVarGlob(glob) => regex_compiles(glob_expression(glob)),
            _ => true,
        }
}

impl TokenExpanderView {
    /// The error that expanding `value` ends in, if it ends in one: that of
    /// its token function, where the scope expands one.
    pub open spec fn value_error(self, task: TaskView, value: Seq<char>) -> Option<
        TokenExpanderErrorView,
    > {
        if self.has_token_function(value) {
            match self.evaluate(task, value, MAX_DEPTH as nat) {
                Err(e) => Some(e),
                Ok(_) => None,
            }
        } else {
            None
        }
    }

    /// The error of the first of `values` that ends in one.
    pub open spec fn first_error(self, task: TaskView, values: Seq<Seq<char>>) -> Option<
        TokenExpanderErrorView,
    >
        decreases values.len(),
    {
        if values.len() == 0 {
            None
        } else {
            match self.first_error(task, values.drop_last()) {
                Some(e) => Some(e),
                None => self.value_error(task, values.last()),
            }
        }
    }

    /// The command of `task`, expanded. A token function is expanded only
    /// where it is the whole command, and then its value takes its place;
    /// token variables and environment references are replaced after that.
    pub open spec fn expand_command(self, task: TaskView) -> Result<
        Seq<char>,
        TokenExpanderErrorView,
    > {
        let e = self.in_scope(TokenScope::Command);
        if e.has_token_function(task.command) {
            match e.evaluate(task, task.command, MAX_DEPTH as nat) {
                Err(x) => Err(x),
                Ok(result) => Ok(
                    e.replace_all_variables(
                        task,
                        match (result.token, result.value) {
                            (Some(token), Some(value)) => replaced(task.command, token, value),
                            _ => task.command,
                        },
                    ),
                ),
            }
        } else {
            Ok(e.replace_all_variables(task, task.command))
        }
    }

    /// Whether `r` is what `script` expands to in at most `passes` passes.
    /// Each pass evaluates the leftmost token function and puts what it
    /// gives, written as the task sees it and joined for a shell, in place
    /// of every occurrence of that token. Token variables and environment
    /// references are replaced after the last pass.
    pub open spec fn is_script_outcome(
        self,
        task: TaskView,
        script: Seq<char>,
        passes: nat,
        r: Result<Seq<char>, TokenExpanderErrorView>,
    ) -> bool
        decreases passes,
    {
        if passes == 0 || !self.has_token_function(script) {
            r == Ok::<Seq<char>, TokenExpanderErrorView>(self.replace_all_variables(task, script))
        } else {
            match self.evaluate(task, script, MAX_DEPTH as nat) {
                Err(e) => r == Err::<Seq<char>, TokenExpanderErrorView>(e),
                Ok(result) => exists|items: Seq<Seq<char>>| #[trigger]
                    self.renders(task, result, items) && self.is_script_outcome(
                        task,
                        replaced(script, result.token.unwrap(), shell_joined(items)),
                        (passes - 1) as nat,
                        r,
                    ),
            }
        }
    }

    /// Whether `out` is what the argument `arg` expands to: for a token
    /// function, what it gives, written as the task sees it; else the one
    /// argument with its token variables and environment references
    /// replaced.
    pub open spec fn is_arg_expansion(
        self,
        task: TaskView,
        arg: Seq<char>,
        out: Seq<Seq<char>>,
    ) -> bool {
        if self.has_token_function(arg) {
            match self.evaluate(task, arg, MAX_DEPTH as nat) {
                Ok(result) => self.renders(task, result, out),
                Err(_) => false,
            }
        } else {
            out == seq![self.replace_all_variables(task, arg)]
        }
    }

    /// Whether `parts` holds, for each of `args` in order, what it expands
    /// to.
    pub open spec fn is_args_expansion(
        self,
        task: TaskView,
        args: Seq<Seq<char>>,
        parts: Seq<Seq<Seq<char>>>,
    ) -> bool {
        &&& parts.len() == args.len()
        &&& forall|i: int|
            0 <= i < args.len() ==> self.is_arg_expansion(task, args[i], #[trigger] parts[i])
    }

    /// Whether `out` is what the environment value `value` expands to: for
    /// a token function, what it gives, written as the task sees it and
    /// joined with commas; else the value with its token variables replaced.
    /// Environment references stay.
    pub open spec fn is_env_value(self, task: TaskView, value: Seq<char>, out: Seq<char>) -> bool {
        if self.has_token_function(value) {
            match self.evaluate(task, value, MAX_DEPTH as nat) {
                Ok(result) => exists|items: Seq<Seq<char>>| #[trigger]
                    self.renders(task, result, items) && out == joined_with(items, ","@),
                Err(_) => false,
            }
        } else if has_variable(value) {
            out == self.replace_variables(task, value, MAX_PASSES as nat)
        } else {
            out == value
        }
    }

    /// Whether `out` is the environment `env` expanded: the same names in
    /// the same order, each with its value expanded.
    pub open spec fn is_env_expansion(
        self,
        task: TaskView,
        env: Seq<EntryView>,
        out: Seq<EntryView>,
    ) -> bool {
        &&& out.len() == env.len()
        &&& forall|i: int|
            0 <= i < env.len() ==> (#[trigger] out[i]).key == env[i].key && self.is_env_value(
                task,
                env[i].value,
                out[i].value,
            )
    }

    /// `found` with what the input `input` adds to it.
    pub open spec fn add_input(
        self,
        task: TaskView,
        found: ExpandedResultView,
        input: InputPathView,
    ) -> Result<ExpandedResultView, TokenExpanderErrorView> {
        match input {
            InputPathView::EnvVar(name) => Ok(
                ExpandedResultView { env: found.env.push(name), ..found },
            ),
            InputPathView::EnvVarGlob(glob) => Ok(
                ExpandedResultView {
                    env: found.env + matching_names(self.host.env_vars, glob_expression(glob)),
                    ..found
                },
            ),
            InputPathView::TokenFunc(function) => match self.evaluate(
                task,
                function,
                MAX_DEPTH as nat,
            ) {
                Err(e) => Err(e),
                Ok(inner) => Ok(
                    ExpandedResultView {
                        env: found.env + inner.env,
                        files: found.files + inner.files,
                        globs: found.globs + inner.globs,
                        token: found.token,
                        value: inner.value,
                    },
                ),
            },
            InputPathView::TokenVar(variable) => Ok(
                ExpandedResultView {
                    files: found.files.push(
                        joined(self.project.source, self.replace_variable(task, variable)),
                    ),
                    ..found
                },
            ),
            InputPathView::ProjectFile(_) | InputPathView::WorkspaceFile(_) => {
                let file = self.replace_all_variables(
                    task,
                    input_relative(input, self.project.source).unwrap(),
                );
                if self.host.kind_of(file) == PathKind::Directory {
                    Ok(
                        ExpandedResultView {
                            globs: found.globs.push(joined(file, "**/*"@)),
                            ..found
                        },
                    )
                } else {
                    Ok(ExpandedResultView { files: found.files.push(file), ..found })
                }
            },
            InputPathView::ProjectGlob(_) | InputPathView::WorkspaceGlob(_) => Ok(
                ExpandedResultView {
                    globs: found.globs.push(
                        self.replace_all_variables(
                            task,
                            input_relative(input, self.project.source).unwrap(),
                        ),
                    ),
                    ..found
                },
            ),
        }
    }

    /// What `inputs` expand to, taken in order. The first input that fails
    /// gives the error.
    pub open spec fn inputs_expanded(self, task: TaskView, inputs: Seq<InputPathView>) -> Result<
        ExpandedResultView,
        TokenExpanderErrorView,
    >
        decreases inputs.len(),
    {
        if inputs.len() == 0 {
            Ok(ExpandedResultView::empty())
        } else {
            match self.inputs_expanded(task, inputs.drop_last()) {
                Err(e) => Err(e),
                Ok(found) => self.add_input(task, found, inputs.last()),
            }
        }
    }

    /// The inputs of `task`, expanded. A declared file that the snapshot
    /// knows as a directory becomes the glob of all that lies in it.
    pub open spec fn expand_inputs(self, task: TaskView) -> Result<
        ExpandedResultView,
        TokenExpanderErrorView,
    > {
        self.in_scope(TokenScope::Inputs).inputs_expanded(task, task.inputs)
    }

    /// `found` with what the output `output` adds to it.
    pub open spec fn add_output(
        self,
        task: TaskView,
        found: ExpandedResultView,
        output: OutputPathView,
    ) -> Result<ExpandedResultView, TokenExpanderErrorView> {
        match output {
            OutputPathView::TokenFunc(function) => match self.evaluate(
                task,
                function,
                MAX_DEPTH as nat,
            ) {
                Err(e) => Err(e),
                Ok(inner) => Ok(
                    ExpandedResultView {
                        files: found.files + inner.files,
                        globs: found.globs + inner.globs,
                        value: inner.value,
                        ..found
                    },
                ),
            },
            OutputPathView::TokenVar(variable) => Ok(
                ExpandedResultView {
                    files: found.files.push(
                        joined(self.project.source, self.replace_variable(task, variable)),
                    ),
                    ..found
                },
            ),
            _ => {
                let path = self.replace_all_variables(
                    task,
                    output_relative(output, self.project.source).unwrap(),
                );
                if output_is_glob(output) {
                    Ok(ExpandedResultView { globs: found.globs.push(path), ..found })
                } else {
                    Ok(ExpandedResultView { files: found.files.push(path), ..found })
                }
            },
        }
    }

    /// What `outputs` expand to, taken in order. The first output that
    /// fails gives the error.
    pub open spec fn outputs_expanded(
        self,
        task: TaskView,
        outputs: Seq<OutputPathView>,
    ) -> Result<ExpandedResultView, TokenExpanderErrorView>
        decreases outputs.len(),
    {
        if outputs.len() == 0 {
            Ok(ExpandedResultView::empty())
        } else {
            match self.outputs_expanded(task, outputs.drop_last()) {
                Err(e) => Err(e),
                Ok(found) => self.add_output(task, found, outputs.last()),
            }
        }
    }

    /// The outputs of `task`, expanded. Whether an output is a file or a
    /// glob is as it was declared.
    pub open spec fn expand_outputs(self, task: TaskView) -> Result<
        ExpandedResultView,
        TokenExpanderErrorView,
    > {
        self.in_scope(TokenScope::Outputs).outputs_expanded(task, task.outputs)
    }
}

/// What a token function gives names the token that was evaluated: the
/// leftmost token function of the text, which is not empty.
pub proof fn lemma_evaluated_token(
    e: TokenExpanderView,
    task: TaskView,
    value: Seq<char>,
    depth: nat,
)
    requires
        e.evaluate(task, value, depth) is Ok,
    ensures
        first_function(value) is Some,
        ({
            let (start, open, end) = first_function(value).unwrap();
            let result = e.evaluate(task, value, depth)->Ok_0;
            &&& 0 <= start && start + 4 < end && end <= value.len()
            &&& result.token == Some(value.subrange(start, end))
        }),
{
    crate::patterns::lemma_function_from_is_leftmost(value, 0);
    let (start, open, end) = first_function(value).unwrap();
    crate::patterns::lemma_function_shape(value, start);
}

/// Once one of the values ends in an error, the values behind it do not
/// change which error comes first.
pub proof fn lemma_first_error_stays(
    e: TokenExpanderView,
    task: TaskView,
    values: Seq<Seq<char>>,
    n: int,
)
    requires
        0 <= n <= values.len(),
        e.first_error(task, values.take(n)) is Some,
    ensures
        e.first_error(task, values) == e.first_error(task, values.take(n)),
    decreases values.len() - n,
{
    if n < values.len() {
        assert(values.take(n + 1).drop_last() =~= values.take(n));
        lemma_first_error_stays(e, task, values, n + 1);
    } else {
        assert(values.take(n) =~= values);
    }
}

/// Once an input fails, the inputs behind it do not change the error.
pub proof fn lemma_inputs_error_stays(
    e: TokenExpanderView,
    task: TaskView,
    inputs: Seq<InputPathView>,
    n: int,
)
    requires
        0 <= n <= inputs.len(),
        e.inputs_expanded(task, inputs.take(n)) is Err,
    ensures
        e.inputs_expanded(task, inputs) == e.inputs_expanded(task, inputs.take(n)),
    decreases inputs.len() - n,
{
    if n < inputs.len() {
        assert(inputs.take(n + 1).drop_last() =~= inputs.take(n));
        lemma_inputs_error_stays(e, task, inputs, n + 1);
    } else {
        assert(inputs.take(n) =~= inputs);
    }
}

/// Once an output fails, the outputs behind it do not change the error.
pub proof fn lemma_outputs_error_stays(
    e: TokenExpanderView,
    task: TaskView,
    outputs: Seq<OutputPathView>,
    n: int,
)
    requires
        0 <= n <= outputs.len(),
        e.outputs_expanded(task, outputs.take(n)) is Err,
    ensures
        e.outputs_expanded(task, outputs) == e.outputs_expanded(task, outputs.take(n)),
    decreases outputs.len() - n,
{
    if n < outputs.len() {
        assert(outputs.take(n + 1).drop_last() =~= outputs.take(n));
        lemma_outputs_error_stays(e, task, outputs, n + 1);
    } else {
        assert(outputs.take(n) =~= outputs);
    }
}

impl<'graph> TokenExpander<'graph> {
    /// Expands the command of `task`.
    ///
    /// A token function is expanded only where it is the whole command; its
    /// value then takes its place, and without a value the command stays.
    /// After that token variables are replaced and environment references
    /// are filled in from the task's environment. Fails as the token
    /// function fails; only `@meta` is allowed here.
    pub fn expand_command(&mut self, task: &Task) -> (r: Result<String, TokenExpanderError>)
        ensures
            final(self)@ == old(self)@.in_scope(TokenScope::Command),
            text_outcome(r) == old(self)@.expand_command(task@),
    {
        self.scope = TokenScope::Command;
        if self.has_token_function(task.command.as_str()) {
            let result = match self.replace_function(task, task.command.as_str()) {
                Ok(result) => result,
                Err(e) => {
                    return Err(e);
                },
            };
            proof {
                lemma_evaluated_token(self@, task@, task.command@, MAX_DEPTH as nat);
            }
            match (&result.token, &result.value) {
                (Some(token), Some(value)) => {
                    let command = replace_all(
                        task.command.as_str(),
                        token.as_str(),
                        value.as_str(),
                    );
                    Ok(self.replace_all_variables(task, command.as_str()))
                },
                _ => Ok(self.replace_all_variables(task, task.command.as_str())),
            }
        } else {
            Ok(self.replace_all_variables(task, task.command.as_str()))
        }
    }

    /// Expands the script of `task`, which must have one.
    ///
    /// While the script holds a token function, the leftmost one is
    /// evaluated, and what it gives takes the place of every occurrence of
    /// that token: its files and globs as the task sees them, then its
    /// value, joined for a shell. This ends after `MAX_PASSES` passes at the
    /// latest. After that token variables are replaced and environment
    /// references are filled in. Fails as the first failing token function
    /// fails.
    pub fn expand_script(&mut self, task: &Task) -> (r: Result<String, TokenExpanderError>)
        requires
            task.script is Some,
        ensures
            final(self)@ == old(self)@.in_scope(TokenScope::Script),
            old(self)@.in_scope(TokenScope::Script).is_script_outcome(
                task@,
                task@.script.unwrap(),
                MAX_PASSES as nat,
                text_outcome(r),
            ),
    {
        self.scope = TokenScope::Script;
        let ghost e = self@;
        let ghost t = task@;
        let ghost first = task@.script.unwrap();
        let mut script: String = match &task.script {
            Some(s) => s.clone(),
            None => String::new(),
        };
        let mut left: usize = MAX_PASSES;
        while left > 0 && self.has_token_function(script.as_str())
            invariant
                self@ == e,
                e == old(self)@.in_scope(TokenScope::Script),
                first == task@.script.unwrap(),
                t == task@,
                forall|r: Result<Seq<char>, TokenExpanderErrorView>| #[trigger]
                    e.is_script_outcome(t, script@, left as nat, r) ==> e.is_script_outcome(
                        t,
                        first,
                        MAX_PASSES as nat,
                        r,
                    ),
            decreases left,
        {
            let result = match self.replace_function(task, script.as_str()) {
                Ok(result) => result,
                Err(x) => {
                    assert(e.is_script_outcome(
                        t,
                        script@,
                        left as nat,
                        Err::<Seq<char>, TokenExpanderErrorView>(x@),
                    ));
                    return Err(x);
                },
            };
            proof {
                lemma_evaluated_token(e, t, script@, MAX_DEPTH as nat);
            }
            let items = self.render_items(task, &result);
            let line = join_args(&items);
            let next = match &result.token {
                Some(token) => replace_all(script.as_str(), token.as_str(), line.as_str()),
                None => script.clone(),
            };
            proof {
                assert forall|r: Result<Seq<char>, TokenExpanderErrorView>| #[trigger]
                    e.is_script_outcome(t, next@, (left - 1) as nat, r) implies e.is_script_outcome(
                    t,
                    first,
                    MAX_PASSES as nat,
                    r,
                ) by {
                    assert(e.renders(t, result@, views(items@)));
                    assert(e.is_script_outcome(t, script@, left as nat, r));
                }
            }
            script = next;
            left -= 1;
        }
        let out = self.replace_all_variables(task, script.as_str());
        assert(e.is_script_outcome(
            t,
            script@,
            left as nat,
            Ok::<Seq<char>, TokenExpanderErrorView>(out@),
        ));
        Ok(out)
    }

    /// Expands the arguments of `task`.
    pub fn expand_args(&mut self, task: &Task) -> (r: Result<Vec<String>, TokenExpanderError>)
        ensures
            final(self)@ == old(self)@.in_scope(TokenScope::Args),
            match r {
                Ok(out) => {
                    &&& old(self)@.in_scope(TokenScope::Args).first_error(task@, task@.args)
                        is None
                    &&& exists|parts: Seq<Seq<Seq<char>>>| #[trigger]
                        old(self)@.in_scope(TokenScope::Args).is_args_expansion(
                            task@,
                            task@.args,
                            parts,
                        ) && views(out@) == concat(parts)
                },
                Err(e) => old(self)@.in_scope(TokenScope::Args).first_error(task@, task@.args)
                    == Some(e@),
            },
    {
        self.expand_args_with_task(task, &task.args)
    }

    /// Expands `base_args` as arguments of `task`.
    ///
    /// An argument that is a token function is replaced by what the
    /// function gives: one argument for each file, then one for each glob,
    /// each as the task sees it, then one for the value. In any other
    /// argument token variables are replaced and environment references
    /// filled in. The result holds the expansions in the order of the
    /// arguments. Fails as the first failing token function fails.
    pub fn expand_args_with_task(&mut self, task: &Task, base_args: &Vec<String>) -> (r: Result<
        Vec<String>,
        TokenExpanderError,
    >)
        ensures
            final(self)@ == old(self)@.in_scope(TokenScope::Args),
            match r {
                Ok(out) => {
                    &&& old(self)@.in_scope(TokenScope::Args).first_error(
                        task@,
                        views(base_args@),
                    ) is None
                    &&& exists|parts: Seq<Seq<Seq<char>>>| #[trigger]
                        old(self)@.in_scope(TokenScope::Args).is_args_expansion(
                            task@,
                            views(base_args@),
                            parts,
                        ) && views(out@) == concat(parts)
                },
                Err(e) => old(self)@.in_scope(TokenScope::Args).first_error(
                    task@,
                    views(base_args@),
                ) == Some(e@),
            },
    {
        self.scope = TokenScope::Args;
        let ghost e = self@;
        let ghost t = task@;
        let ghost all = views(base_args@);
        let ghost mut parts: Seq<Seq<Seq<char>>> = seq![];
        let mut args: Vec<String> = Vec::new();
        let mut i: usize = 0;
        proof {
            assert(views(args@) =~= concat(parts));
            assert(all.take(0) =~= Seq::<Seq<char>>::empty());
        }
        while i < base_args.len()
            invariant
                self@ == e,
                e == old(self)@.in_scope(TokenScope::Args),
                t == task@,
                all == views(base_args@),
                i <= base_args.len(),
                parts.len() == i,
                views(args@) == concat(parts),
                e.first_error(t, all.take(i as int)) is None,
                forall|k: int| 0 <= k < i ==> e.is_arg_expansion(t, all[k], #[trigger] parts[k]),
            decreases base_args.len() - i,
        {
            let arg = base_args[i].as_str();
            let ghost before = views(args@);
            proof {
                assert(all.take(i + 1).drop_last() =~= all.take(i as int));
                assert(all.take(i + 1).last() == arg@);
            }
            if self.has_token_function(arg) {
                let result = match self.replace_function(task, arg) {
                    Ok(result) => result,
                    Err(x) => {
                        proof {
                            lemma_first_error_stays(e, t, all, i + 1);
                        }
                        return Err(x);
                    },
                };
                let items = self.render_items(task, &result);
                extend_texts(&mut args, &items);
                proof {
                    let old_parts = parts;
                    parts = parts.push(views(items@));
                    assert(parts.drop_last() =~= old_parts);
                }
            } else {
                let text = self.replace_all_variables(task, arg);
                push_text(&mut args, text);
                proof {
                    let old_parts = parts;
                    parts = parts.push(seq![text@]);
                    assert(parts.drop_last() =~= old_parts);
                    assert(before.push(text@) =~= before + seq![text@]);
                }
            }
            i += 1;
        }
        proof {
            assert(all.take(i as int) =~= all);
            assert(e.is_args_expansion(t, all, parts));
        }
        Ok(args)
    }

    /// Expands the environment of `task`.
    pub fn expand_env(&mut self, task: &Task) -> (r: Result<Vec<Entry>, TokenExpanderError>)
        ensures
            final(self)@ == old(self)@.in_scope(TokenScope::Env),
            match r {
                Ok(out) => {
                    &&& old(self)@.in_scope(TokenScope::Env).first_error(
                        task@,
                        values_of(task@.env),
                    ) is None
                    &&& old(self)@.in_scope(TokenScope::Env).is_env_expansion(
                        task@,
                        task@.env,
                        views(out@),
                    )
                },
                Err(e) => old(self)@.in_scope(TokenScope::Env).first_error(
                    task@,
                    values_of(task@.env),
                ) == Some(e@),
            },
    {
        self.expand_env_with_task(task, &task.env)
    }

    /// Expands `base_env` as the environment of `task`.
    ///
    /// Each name keeps its place. A value that is a token function becomes
    /// what the function gives, joined with commas: its files and globs as
    /// the task sees them, then its value. In any other value token
    /// variables are replaced. Environment references are not filled in
    /// here. Fails as the first failing token function fails.
    pub fn expand_env_with_task(&mut self, task: &Task, base_env: &Vec<Entry>) -> (r: Result<
        Vec<Entry>,
        TokenExpanderError,
    >)
        ensures
            final(self)@ == old(self)@.in_scope(TokenScope::Env),
            match r {
                Ok(out) => {
                    &&& old(self)@.in_scope(TokenScope::Env).first_error(
                        task@,
                        values_of(views(base_env@)),
                    ) is None
                    &&& old(self)@.in_scope(TokenScope::Env).is_env_expansion(
                        task@,
                        views(base_env@),
                        views(out@),
                    )
                },
                Err(e) => old(self)@.in_scope(TokenScope::Env).first_error(
                    task@,
                    values_of(views(base_env@)),
                ) == Some(e@),
            },
    {
        self.scope = TokenScope::Env;
        let ghost e = self@;
        let ghost t = task@;
        let ghost all = views(base_env@);
        let ghost values = values_of(all);
        let mut env: Vec<Entry> = Vec::new();
        let mut i: usize = 0;
        assert(values.take(0) =~= Seq::<Seq<char>>::empty());
        while i < base_env.len()
            invariant
                self@ == e,
                e == old(self)@.in_scope(TokenScope::Env),
                t == task@,
                all == views(base_env@),
                values == values_of(all),
                i <= base_env.len(),
                env.len() == i,
                e.first_error(t, values.take(i as int)) is None,
                forall|k: int|
                    0 <= k < i ==> (#[trigger] views(env@)[k]).key == all[k].key
                        && e.is_env_value(t, all[k].value, views(env@)[k].value),
            decreases base_env.len() - i,
        {
            let key = base_env[i].key.clone();
            let value = base_env[i].value.as_str();
            let ghost before = views(env@);
            proof {
                assert(values.take(i + 1).drop_last() =~= values.take(i as int));
                assert(values.take(i + 1).last() == value@);
                assert(all[i as int].value == value@);
            }
            let expanded = if self.has_token_function(value) {
                let result = match self.replace_function(task, value) {
                    Ok(result) => result,
                    Err(x) => {
                        proof {
                            lemma_first_error_stays(e, t, values, i + 1);
                        }
                        return Err(x);
                    },
                };
                let items = self.render_items(task, &result);
                let line = join_with(&items, ",");
                assert(e.renders(t, result@, views(items@)));
                line
            } else if self.has_token_variable(value) {
                self.replace_variables(task, value)
            } else {
                String::from_str(value)
            };
            env.push(Entry { key, value: expanded });
            proof {
                assert(views(env@) =~= before.push(
                    EntryView { key: all[i as int].key, value: expanded@ },
                ));
            }
            i += 1;
        }
        assert(values.take(i as int) =~= values);
        Ok(env)
    }

    /// Adds to `found` what the input `input` expands to.
    fn add_input(&self, task: &Task, found: &mut ExpandedResult, input: &InputPath) -> (r:
        Result<(), TokenExpanderError>)
        requires
            match input@ {
                InputPathView::EnvVarGlob(glob) => regex_compiles(glob_expression(glob)),
                _ => true,
            },
        ensures
            match r {
                Ok(_) => self@.add_input(task@, old(found)@, input@) == Ok::<
                    ExpandedResultView,
                    TokenExpanderErrorView,
                >(final(found)@),
                Err(e) => self@.add_input(task@, old(found)@, input@) == Err::<
                    ExpandedResultView,
                    TokenExpanderErrorView,
                >(e@),
            },
    {
        match input {
            InputPath::EnvVar(name) => {
                push_text(&mut found.env, name.clone());
            },
            InputPath::EnvVarGlob(glob) => {
                collect_matching(&mut found.env, &self.host.env_vars, glob.as_str());
            },
            InputPath::TokenFunc(function) => {
                let inner = match self.replace_function(task, function.as_str()) {
                    Ok(inner) => inner,
                    Err(e) => {
                        return Err(e);
                    },
                };
                extend_texts(&mut found.env, &inner.env);
                extend_texts(&mut found.files, &inner.files);
                extend_texts(&mut found.globs, &inner.globs);
                found.value = inner.value;
            },
            InputPath::TokenVar(variable) => {
                let replaced = self.replace_variable(task, variable.as_str());
                let file = join_path(self.project.source.as_str(), replaced.as_str());
                push_text(&mut found.files, file);
            },
            InputPath::ProjectFile(_) | InputPath::WorkspaceFile(_) => {
                let path = input.to_workspace_relative(self.project.source.as_str());
                let file = self.replace_all_variables(task, path.unwrap().as_str());
                match self.host.kind_of(file.as_str()) {
                    PathKind::Directory => {
                        push_text(&mut found.globs, join_path(file.as_str(), "**/*"));
                    },
                    _ => {
                        push_text(&mut found.files, file);
                    },
                }
            },
            InputPath::ProjectGlob(_) | InputPath::WorkspaceGlob(_) => {
                let path = input.to_workspace_relative(self.project.source.as_str());
                let glob = self.replace_all_variables(task, path.unwrap().as_str());
                push_text(&mut found.globs, glob);
            },
        }
        Ok(())
    }

    /// Expands the inputs of `task`, whose environment patterns must all
    /// make regular expressions.
    ///
    /// The names of environment variables go to `env`: a name as it stands,
    /// and for a pattern every name of the snapshot that it matches. A token
    /// function adds what it gives and sets the value. A token variable is
    /// replaced once and put under the project's directory. A declared file
    /// that the snapshot knows as a directory becomes the glob of all that
    /// lies in it; any other declared file is a file, and a declared glob a
    /// glob. Fails as the first failing token function fails.
    pub fn expand_inputs(&mut self, task: &Task) -> (r: Result<ExpandedResult, TokenExpanderError>)
        requires
            env_globs_compile(task@.inputs),
        ensures
            final(self)@ == old(self)@.in_scope(TokenScope::Inputs),
            outcome(r) == old(self)@.expand_inputs(task@),
    {
        self.scope = TokenScope::Inputs;
        let ghost e = self@;
        let ghost t = task@;
        let mut found = ExpandedResult::default();
        let mut i: usize = 0;
        assert(t.inputs.take(0) =~= Seq::<InputPathView>::empty());
        while i < task.inputs.len()
            invariant
                self@ == e,
                e == old(self)@.in_scope(TokenScope::Inputs),
                t == task@,
                i <= task.inputs.len(),
                env_globs_compile(t.inputs),
                e.inputs_expanded(t, t.inputs.take(i as int)) == Ok::<
                    ExpandedResultView,
                    TokenExpanderErrorView,
                >(found@),
            decreases task.inputs.len() - i,
        {
            proof {
                assert(t.inputs.take(i + 1).drop_last() =~= t.inputs.take(i as int));
                assert(t.inputs.take(i + 1).last() == task.inputs[i as int]@);
                assert(t.inputs[i as int] == task.inputs[i as int]@);
            }
            match self.add_input(task, &mut found, &task.inputs[i]) {
                Ok(_) => {},
                Err(x) => {
                    proof {
                        lemma_inputs_error_stays(e, t, t.inputs, i + 1);
                    }
                    return Err(x);
                },
            }
            i += 1;
        }
        assert(t.inputs.take(i as int) =~= t.inputs);
        Ok(found)
    }

    /// Expands the inputs of `task` where all its environment patterns make
    /// regular expressions. Returns `None`, and leaves the expander as it
    /// was, where one of them does not.
    pub fn try_expand_inputs(&mut self, task: &Task) -> (r: Option<
        Result<ExpandedResult, TokenExpanderError>,
    >)
        ensures
            r is Some == env_globs_compile(task@.inputs),
            match r {
                Some(done) => final(self)@ == old(self)@.in_scope(TokenScope::Inputs) && outcome(
                    done,
                ) == old(self)@.expand_inputs(task@),
                None => *final(self) == *old(self),
            },
    {
        let mut i: usize = 0;
        while i < task.inputs.len()
            invariant
                i <= task.inputs.len(),
                *self == *old(self),
                env_globs_compile(task@.inputs.take(i as int)),
            decreases task.inputs.len() - i,
        {
            match &task.inputs[i] {
                InputPath::EnvVarGlob(glob) => {
                    if !crate::env_glob::is_env_pattern(glob.as_str()) {
                        assert(task@.inputs[i as int] == task.inputs[i as int]@);
                        return None;
                    }
                },
                _ => {},
            }
            proof {
                let upto = task@.inputs.take(i + 1);
                assert forall|k: int| 0 <= k < upto.len() implies match #[trigger] upto[k] {
                    InputPathView::EnvVarGlob(glob) => regex_compiles(glob_expression(glob)),
                    _ => true,
                } by {
                    if k < i {
                        assert(upto[k] == task@.inputs.take(i as int)[k]);
                    } else {
                        assert(upto[k] == task.inputs[i as int]@);
                    }
                }
            }
            i += 1;
        }
        assert(task@.inputs.take(i as int) =~= task@.inputs);
        Some(self.expand_inputs(task))
    }

    /// Adds to `found` what the output `output` expands to.
    fn add_output(&self, task: &Task, found: &mut ExpandedResult, output: &OutputPath) -> (r:
        Result<(), TokenExpanderError>)
        ensures
            match r {
                Ok(_) => self@.add_output(task@, old(found)@, output@) == Ok::<
                    ExpandedResultView,
                    TokenExpanderErrorView,
                >(final(found)@),
                Err(e) => self@.add_output(task@, old(found)@, output@) == Err::<
                    ExpandedResultView,
                    TokenExpanderErrorView,
                >(e@),
            },
    {
        match output {
            OutputPath::TokenFunc(function) => {
                let inner = match self.replace_function(task, function.as_str()) {
                    Ok(inner) => inner,
                    Err(e) => {
                        return Err(e);
                    },
                };
                extend_texts(&mut found.files, &inner.files);
                extend_texts(&mut found.globs, &inner.globs);
                found.value = inner.value;
            },
            OutputPath::TokenVar(variable) => {
                let replaced = self.replace_variable(task, variable.as_str());
                let file = join_path(self.project.source.as_str(), replaced.as_str());
                push_text(&mut found.files, file);
            },
            _ => {
                let relative = output.to_workspace_relative(self.project.source.as_str());
                let path = self.replace_all_variables(task, relative.unwrap().as_str());
                if output.is_glob() {
                    push_text(&mut found.globs, path);
                } else {
                    push_text(&mut found.files, path);
                }
            },
        }
        Ok(())
    }

    /// Expands the outputs of `task`.
    ///
    /// A token function adds what it gives and sets the value; a file group
    /// is then read without asking that its paths exist. A token variable is
    /// replaced once and put under the project's directory. A declared glob
    /// is a glob and a declared file a file, whatever is on disk. Fails as
    /// the first failing token function fails.
    pub fn expand_outputs(&mut self, task: &Task) -> (r: Result<
        ExpandedResult,
        TokenExpanderError,
    >)
        ensures
            final(self)@ == old(self)@.in_scope(TokenScope::Outputs),
            outcome(r) == old(self)@.expand_outputs(task@),
    {
        self.scope = TokenScope::Outputs;
        let ghost e = self@;
        let ghost t = task@;
        let mut found = ExpandedResult::default();
        let mut i: usize = 0;
        assert(t.outputs.take(0) =~= Seq::<OutputPathView>::empty());
        while i < task.outputs.len()
            invariant
                self@ == e,
                e == old(self)@.in_scope(TokenScope::Outputs),
                t == task@,
                i <= task.outputs.len(),
                e.outputs_expanded(t, t.outputs.take(i as int)) == Ok::<
                    ExpandedResultView,
                    TokenExpanderErrorView,
                >(found@),
            decreases task.outputs.len() - i,
        {
            proof {
                assert(t.outputs.take(i + 1).drop_last() =~= t.outputs.take(i as int));
                assert(t.outputs.take(i + 1).last() == task.outputs[i as int]@);
            }
            match self.add_output(task, &mut found, &task.outputs[i]) {
                Ok(_) => {},
                Err(x) => {
                    proof {
                        lemma_outputs_error_stays(e, t, t.outputs, i + 1);
                    }
                    return Err(x);
                },
            }
            i += 1;
        }
        assert(t.outputs.take(i as int) =~= t.outputs);
        Ok(found)
    }
}

} // verus!
