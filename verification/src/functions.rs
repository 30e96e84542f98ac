//! Token functions: what each gives, and where each is allowed.
use vstd::prelude::*;
use vstd::string::*;
use crate::args::{join_with, joined_with};
use crate::clock::{index_value, parse_index_text};
use crate::errors::{TokenExpanderError, TokenExpanderErrorView};
use crate::expanded::{ExpandedResult, ExpandedResultView};
use crate::file_group::copy_texts;
use crate::model::{
    find_entry, find_group, group_index, lookup, InputPath, InputPathView, OutputPath,
    OutputPathView, ProjectMetadata, ProjectMetadataView, Task, TaskView,
};
use crate::paths::{join_path, joined};
use crate::patterns::{find_function, first_function};
use crate::scope::{
    allowed_in, function_by_name, function_named, is_allowed_in, TokenFunction, TokenScope,
};
use crate::text::same_text;
use crate::token_expander::{TokenExpander, TokenExpanderView, MAX_DEPTH};

verus! {

/// The model of what evaluating a token function returns.
pub open spec fn outcome(r: Result<ExpandedResult, TokenExpanderError>) -> Result<
    ExpandedResultView,
    TokenExpanderErrorView,
> {
    match r {
        Ok(v) => Ok(v@),
        Err(e) => Err(e@),
    }
}

/// The path of an input relative to the workspace: a project path is put
/// under the project's directory, a workspace path stands as it is. `None`
/// for an input that is no path.
pub open spec fn input_relative(input: InputPathView, source: Seq<char>) -> Option<Seq<char>> {
    match input {
        InputPathView::ProjectFile(p) | InputPathView::ProjectGlob(p) => Some(joined(source, p)),
        InputPathView::WorkspaceFile(p) | InputPathView::WorkspaceGlob(p) => Some(p),
        _ => None,
    }
}

/// The path of an output relative to the workspace: a project path is put
/// under the project's directory, a workspace path stands as it is. `None`
/// for an output that is no path.
pub open spec fn output_relative(output: OutputPathView, source: Seq<char>) -> Option<Seq<char>> {
    match output {
        OutputPathView::ProjectFile(p) | OutputPathView::ProjectGlob(p) => Some(
            joined(source, p),
        ),
        OutputPathView::WorkspaceFile(p) | OutputPathView::WorkspaceGlob(p) => Some(p),
        _ => None,
    }
}

/// Whether an output is a glob.
pub open spec fn output_is_glob(output: OutputPathView) -> bool {
    output is ProjectGlob || output is WorkspaceGlob
}

/// What `@meta(key)` stands for: a field of the metadata where `key` names
/// one, else what the project declares under `key`. An empty description and
/// an empty list of maintainers count as absent.
pub open spec fn meta_value(metadata: Option<ProjectMetadataView>, key: Seq<char>) -> Option<
    Seq<char>,
> {
    match metadata {
        None => None,
        Some(md) => if key == "channel"@ {
            md.channel
        } else if key == "description"@ {
            if md.description.len() == 0 {
                None
            } else {
                Some(md.description)
            }
        } else if key == "maintainers"@ {
            if md.maintainers.len() == 0 {
                None
            } else {
                Some(joined_with(md.maintainers, ","@))
            }
        } else if key == "name"@ {
            md.name
        } else if key == "owner"@ {
            md.owner
        } else {
            lookup(md.custom, key)
        },
    }
}

impl TokenExpanderView {
    /// The error for a token function that the current scope does not allow.
    pub open spec fn scope_error(self, task: TaskView, token: Seq<char>) -> TokenExpanderErrorView {
        TokenExpanderErrorView::InvalidTokenScope {
            target: task.target.text(),
            token,
            scope: self.scope.label_text(),
        }
    }

    /// What a token function on the file group `arg` gives.
    pub open spec fn evaluate_group(
        self,
        function: TokenFunction,
        token: Seq<char>,
        arg: Seq<char>,
    ) -> Result<ExpandedResultView, TokenExpanderErrorView> {
        let base = ExpandedResultView::for_token(token);
        let loose = self.scope == TokenScope::Outputs;
        match group_index(self.project.file_groups, arg) {
            None => Err(TokenExpanderErrorView::UnknownFileGroup { group: arg, token }),
            Some(i) => {
                let group = self.project.file_groups[i];
                match function {
                    TokenFunction::Root => match group.root(self.project.source) {
                        Ok(dir) => Ok(ExpandedResultView { files: seq![dir], ..base }),
                        Err(e) => Err(TokenExpanderErrorView::FileGroup(e)),
                    },
                    TokenFunction::Dirs => match group.dirs(self.host, loose) {
                        Ok(dirs) => Ok(ExpandedResultView { files: dirs, ..base }),
                        Err(e) => Err(TokenExpanderErrorView::FileGroup(e)),
                    },
                    TokenFunction::Files => match group.files(self.host, loose) {
                        Ok(files) => Ok(ExpandedResultView { files, ..base }),
                        Err(e) => Err(TokenExpanderErrorView::FileGroup(e)),
                    },
                    TokenFunction::Globs => match group.globs_or_error() {
                        Ok(globs) => Ok(ExpandedResultView { globs, ..base }),
                        Err(e) => Err(TokenExpanderErrorView::FileGroup(e)),
                    },
                    TokenFunction::Envs => match group.env_or_error() {
                        Ok(env) => Ok(ExpandedResultView { env, ..base }),
                        Err(e) => Err(TokenExpanderErrorView::FileGroup(e)),
                    },
                    _ => Ok(
                        ExpandedResultView {
                            files: group.files,
                            globs: group.globs,
                            env: if self.scope == TokenScope::Inputs {
                                group.env
                            } else {
                                seq![]
                            },
                            ..base
                        },
                    ),
                }
            },
        }
    }

    /// What `@in` gives for `input`, where `nested` is what the token
    /// function inside `input` gives, if `input` is one.
    pub open spec fn evaluate_input(
        self,
        task: TaskView,
        token: Seq<char>,
        input: InputPathView,
        nested: Result<ExpandedResultView, TokenExpanderErrorView>,
    ) -> Result<ExpandedResultView, TokenExpanderErrorView> {
        let base = ExpandedResultView::for_token(token);
        match input {
            InputPathView::ProjectFile(_) | InputPathView::WorkspaceFile(_) => Ok(
                ExpandedResultView {
                    files: seq![
                        self.replace_all_variables(
                            task,
                            input_relative(input, self.project.source).unwrap(),
                        ),
                    ],
                    ..base
                },
            ),
            InputPathView::ProjectGlob(_) | InputPathView::WorkspaceGlob(_) => Ok(
                ExpandedResultView {
                    globs: seq![
                        self.replace_all_variables(
                            task,
                            input_relative(input, self.project.source).unwrap(),
                        ),
                    ],
                    ..base
                },
            ),
            InputPathView::TokenFunc(_) => match nested {
                Ok(inner) => Ok(
                    ExpandedResultView { files: inner.files, globs: inner.globs, ..base },
                ),
                Err(e) => Err(e),
            },
            _ => Err(
                TokenExpanderErrorView::InvalidTokenIndexReference {
                    target: task.target.text(),
                    token,
                },
            ),
        }
    }

    /// What `@out` gives for `output`, where `nested` is what the token
    /// function inside `output` gives, if `output` is one.
    pub open spec fn evaluate_output(
        self,
        task: TaskView,
        token: Seq<char>,
        output: OutputPathView,
        nested: Result<ExpandedResultView, TokenExpanderErrorView>,
    ) -> Result<ExpandedResultView, TokenExpanderErrorView> {
        let base = ExpandedResultView::for_token(token);
        match output {
            OutputPathView::ProjectFile(_) | OutputPathView::WorkspaceFile(_) => Ok(
                ExpandedResultView {
                    files: seq![
                        self.replace_all_variables(
                            task,
                            output_relative(output, self.project.source).unwrap(),
                        ),
                    ],
                    ..base
                },
            ),
            OutputPathView::ProjectGlob(_) | OutputPathView::WorkspaceGlob(_) => Ok(
                ExpandedResultView {
                    globs: seq![
                        self.replace_all_variables(
                            task,
                            output_relative(output, self.project.source).unwrap(),
                        ),
                    ],
                    ..base
                },
            ),
            OutputPathView::TokenFunc(_) => match nested {
                Ok(inner) => Ok(
                    ExpandedResultView { files: inner.files, globs: inner.globs, ..base },
                ),
                Err(e) => Err(e),
            },
            _ => Err(
                TokenExpanderErrorView::InvalidTokenIndexReference {
                    target: task.target.text(),
                    token,
                },
            ),
        }
    }

    /// The error for a chain of token functions that is longer than
    /// `MAX_DEPTH`.
    pub open spec fn too_deep(
        self,
        task: TaskView,
        token: Seq<char>,
    ) -> Result<ExpandedResultView, TokenExpanderErrorView> {
        Err(
            TokenExpanderErrorView::InvalidTokenIndexReference {
                target: task.target.text(),
                token,
            },
        )
    }

    /// What the leftmost token function of `value` gives in the current
    /// scope, following at most `depth` further token functions that `@in`
    /// and `@out` lead to.
    ///
    /// A `value` without a token function, and a function with a name that
    /// is not known, is an unknown token. A known function that the scope
    /// does not allow is a scope error, whatever its argument.
    pub open spec fn evaluate(self, task: TaskView, value: Seq<char>, depth: nat) -> Result<
        ExpandedResultView,
        TokenExpanderErrorView,
    >
        decreases depth,
    {
        match first_function(value) {
            None => Err(TokenExpanderErrorView::UnknownToken { token: value }),
            Some((start, open, end)) => {
                let token = value.subrange(start, end);
                let arg = value.subrange(open + 1, end - 1);
                match function_named(value.subrange(start + 1, open)) {
                    None => Err(TokenExpanderErrorView::UnknownToken { token }),
                    Some(function) => if !allowed_in(function, self.scope) {
                        Err(self.scope_error(task, token))
                    } else {
                        match function {
                            TokenFunction::In => match index_value(arg) {
                                None => Err(
                                    TokenExpanderErrorView::InvalidTokenIndex {
                                        target: task.target.text(),
                                        token,
                                        index: arg,
                                    },
                                ),
                                Some(index) => if index >= task.inputs.len() {
                                    Err(
                                        TokenExpanderErrorView::MissingInIndex {
                                            index,
                                            target: task.target.text(),
                                            token,
                                        },
                                    )
                                } else {
                                    let input = task.inputs[index as int];
                                    let nested = match input {
                                        InputPathView::TokenFunc(inner) => if depth > 0 {
                                            self.evaluate(task, inner, (depth - 1) as nat)
                                        } else {
                                            self.too_deep(task, token)
                                        },
                                        _ => self.too_deep(task, token),
                                    };
                                    self.evaluate_input(task, token, input, nested)
                                },
                            },
                            TokenFunction::Out => match index_value(arg) {
                                None => Err(
                                    TokenExpanderErrorView::InvalidTokenIndex {
                                        target: task.target.text(),
                                        token,
                                        index: arg,
                                    },
                                ),
                                Some(index) => if index >= task.outputs.len() {
                                    Err(
                                        TokenExpanderErrorView::MissingOutIndex {
                                            index,
                                            target: task.target.text(),
                                            token,
                                        },
                                    )
                                } else {
                                    let output = task.outputs[index as int];
                                    let nested = match output {
                                        OutputPathView::TokenFunc(inner) => if depth > 0 {
                                            self.evaluate(task, inner, (depth - 1) as nat)
                                        } else {
                                            self.too_deep(task, token)
                                        },
                                        _ => self.too_deep(task, token),
                                    };
                                    self.evaluate_output(task, token, output, nested)
                                },
                            },
                            TokenFunction::Meta => Ok(
                                ExpandedResultView {
                                    value: meta_value(self.project.metadata, arg),
                                    ..ExpandedResultView::for_token(token)
                                },
                            ),
                            _ => self.evaluate_group(function, token, arg),
                        }
                    },
                }
            },
        }
    }
}

impl ExpandedResult {
    /// The result that holds nothing but the token it is for.
    pub fn for_token(token: String) -> (r: ExpandedResult)
        ensures
            r@ == ExpandedResultView::for_token(token@),
    {
        let r = ExpandedResult {
            env: Vec::new(),
            files: Vec::new(),
            globs: Vec::new(),
            token: Some(token),
            value: None,
        };
        assert(r@.env =~= seq![]);
        assert(r@.files =~= seq![]);
        assert(r@.globs =~= seq![]);
        r
    }
}

impl InputPath {
    /// The path of the input relative to the workspace, or `None` for an
    /// input that is no path.
    pub fn to_workspace_relative(&self, source: &str) -> (r: Option<String>)
        ensures
            crate::model::text_of(r) == input_relative(self@, source@),
    {
        match self {
            InputPath::ProjectFile(p) | InputPath::ProjectGlob(p) => Some(
                join_path(source, p.as_str()),
            ),
            InputPath::WorkspaceFile(p) | InputPath::WorkspaceGlob(p) => Some(p.clone()),
            _ => None,
        }
    }
}

impl OutputPath {
    /// The path of the output relative to the workspace, or `None` for an
    /// output that is no path.
    pub fn to_workspace_relative(&self, source: &str) -> (r: Option<String>)
        ensures
            crate::model::text_of(r) == output_relative(self@, source@),
    {
        match self {
            OutputPath::ProjectFile(p) | OutputPath::ProjectGlob(p) => Some(
                join_path(source, p.as_str()),
            ),
            OutputPath::WorkspaceFile(p) | OutputPath::WorkspaceGlob(p) => Some(p.clone()),
            _ => None,
        }
    }

    /// Whether the output is a glob.
    pub fn is_glob(&self) -> (r: bool)
        ensures
            r == output_is_glob(self@),
    {
        match self {
            OutputPath::ProjectGlob(_) | OutputPath::WorkspaceGlob(_) => true,
            _ => false,
        }
    }
}

/// What `@meta(key)` stands for.
pub fn metadata_value(metadata: &Option<ProjectMetadata>, key: &str) -> (r: Option<String>)
    ensures
        crate::model::text_of(r) == meta_value(crate::model::metadata_of(*metadata), key@),
{
    match metadata {
        None => None,
        Some(md) => {
            if same_text(key, "channel") {
                md.channel.clone()
            } else if same_text(key, "description") {
                if md.description.as_str().unicode_len() == 0 {
                    None
                } else {
                    Some(md.description.clone())
                }
            } else if same_text(key, "maintainers") {
                if md.maintainers.len() == 0 {
                    None
                } else {
                    Some(join_with(&md.maintainers, ","))
                }
            } else if same_text(key, "name") {
                md.name.clone()
            } else if same_text(key, "owner") {
                md.owner.clone()
            } else {
                match find_entry(&md.custom, key) {
                    Some(v) => Some(v.clone()),
                    None => None,
                }
            }
        },
    }
}

impl<'graph> TokenExpander<'graph> {
    /// Fails where the current scope does not allow `function`.
    fn check_scope(&self, task: &Task, token: &str, function: TokenFunction) -> (r: Result<
        (),
        TokenExpanderError,
    >)
        ensures
            match r {
                Ok(_) => allowed_in(function, self@.scope),
                Err(e) => !allowed_in(function, self@.scope) && e@ == self@.scope_error(
                    task@,
                    token@,
                ),
            },
    {
        if !is_allowed_in(function, self.scope) {
            return Err(
                TokenExpanderError::InvalidTokenScope {
                    target: task.target.text(),
                    token: String::from_str(token),
                    scope: self.scope.label(),
                },
            );
        }
        Ok(())
    }

    /// Reads the argument of `@in` or `@out` as an index.
    fn parse_index(&self, task: &Task, token: &str, value: &str) -> (r: Result<
        usize,
        TokenExpanderError,
    >)
        ensures
            match r {
                Ok(index) => index_value(value@) == Some(index),
                Err(e) => index_value(value@) is None && e@
                    == (TokenExpanderErrorView::InvalidTokenIndex {
                    target: task@.target.text(),
                    token: token@,
                    index: value@,
                }),
            },
    {
        match parse_index_text(value) {
            Some(index) => Ok(index),
            None => Err(
                TokenExpanderError::InvalidTokenIndex {
                    target: task.target.text(),
                    token: String::from_str(token),
                    index: String::from_str(value),
                },
            ),
        }
    }

    /// Evaluates a token function on the file group `arg`.
    fn evaluate_group(&self, function: TokenFunction, token: &str, arg: &str) -> (r: Result<
        ExpandedResult,
        TokenExpanderError,
    >)
        ensures
            outcome(r) == self@.evaluate_group(function, token@, arg@),
    {
        let loose = self.scope == TokenScope::Outputs;
        let group = match find_group(&self.project.file_groups, arg) {
            Some(g) => g,
            None => {
                return Err(
                    TokenExpanderError::UnknownFileGroup {
                        group: String::from_str(arg),
                        token: String::from_str(token),
                    },
                );
            },
        };
        let mut result = ExpandedResult::for_token(String::from_str(token));
        match function {
            TokenFunction::Root => match group.root(self.project.source.as_str()) {
                Ok(dir) => {
                    crate::expanded::push_text(&mut result.files, dir);
                    assert(result@.files =~= seq![dir@]);
                },
                Err(e) => {
                    return Err(TokenExpanderError::FileGroup(e));
                },
            },
            TokenFunction::Dirs => match group.dirs(&self.host, loose) {
                Ok(dirs) => {
                    result.files = dirs;
                },
                Err(e) => {
                    return Err(TokenExpanderError::FileGroup(e));
                },
            },
            TokenFunction::Files => match group.files(&self.host, loose) {
                Ok(files) => {
                    result.files = files;
                },
                Err(e) => {
                    return Err(TokenExpanderError::FileGroup(e));
                },
            },
            TokenFunction::Globs => match group.globs() {
                Ok(globs) => {
                    result.globs = globs;
                },
                Err(e) => {
                    return Err(TokenExpanderError::FileGroup(e));
                },
            },
            TokenFunction::Envs => match group.env() {
                Ok(env) => {
                    result.env = env;
                },
                Err(e) => {
                    return Err(TokenExpanderError::FileGroup(e));
                },
            },
            _ => {
                result.files = copy_texts(&group.files);
                result.globs = copy_texts(&group.globs);
                if self.scope == TokenScope::Inputs {
                    result.env = copy_texts(&group.env);
                }
            },
        }
        Ok(result)
    }

    /// Evaluates the leftmost token function of `value`, following at most
    /// `depth` further token functions.
    fn evaluate(&self, task: &Task, value: &str, depth: usize) -> (r: Result<
        ExpandedResult,
        TokenExpanderError,
    >)
        ensures
            outcome(r) == self@.evaluate(task@, value@, depth as nat),
        decreases depth,
    {
        let (start, open, end) = match find_function(value) {
            Some(m) => m,
            None => {
                return Err(TokenExpanderError::UnknownToken { token: String::from_str(value) });
            },
        };
        let token = value.substring_char(start, end);
        let name = value.substring_char(start + 1, open);
        let arg = value.substring_char(open + 1, end - 1);
        let function = match function_by_name(name) {
            Some(f) => f,
            None => {
                return Err(TokenExpanderError::UnknownToken { token: String::from_str(token) });
            },
        };
        match self.check_scope(task, token, function) {
            Err(e) => {
                return Err(e);
            },
            Ok(_) => {},
        }
        match function {
            TokenFunction::In => {
                let index = match self.parse_index(task, token, arg) {
                    Ok(i) => i,
                    Err(e) => {
                        return Err(e);
                    },
                };
                if index >= task.inputs.len() {
                    return Err(
                        TokenExpanderError::MissingInIndex {
                            index,
                            target: task.target.text(),
                            token: String::from_str(token),
                        },
                    );
                }
                let input = &task.inputs[index];
                let mut result = ExpandedResult::for_token(String::from_str(token));
                match input {
                    InputPath::ProjectFile(_) | InputPath::WorkspaceFile(_) => {
                        let path = input.to_workspace_relative(self.project.source.as_str());
                        let file = self.replace_all_variables(task, path.unwrap().as_str());
                        crate::expanded::push_text(&mut result.files, file);
                        assert(result@.files =~= seq![file@]);
                    },
                    InputPath::ProjectGlob(_) | InputPath::WorkspaceGlob(_) => {
                        let path = input.to_workspace_relative(self.project.source.as_str());
                        let glob = self.replace_all_variables(task, path.unwrap().as_str());
                        crate::expanded::push_text(&mut result.globs, glob);
                        assert(result@.globs =~= seq![glob@]);
                    },
                    InputPath::TokenFunc(inner) => {
                        if depth == 0 {
                            return Err(
                                TokenExpanderError::InvalidTokenIndexReference {
                                    target: task.target.text(),
                                    token: String::from_str(token),
                                },
                            );
                        }
                        match self.evaluate(task, inner.as_str(), depth - 1) {
                            Ok(nested) => {
                                result.files = nested.files;
                                result.globs = nested.globs;
                            },
                            Err(e) => {
                                return Err(e);
                            },
                        }
                    },
                    _ => {
                        return Err(
                            TokenExpanderError::InvalidTokenIndexReference {
                                target: task.target.text(),
                                token: String::from_str(token),
                            },
                        );
                    },
                }
                Ok(result)
            },
            TokenFunction::Out => {
                let index = match self.parse_index(task, token, arg) {
                    Ok(i) => i,
                    Err(e) => {
                        return Err(e);
                    },
                };
                if index >= task.outputs.len() {
                    return Err(
                        TokenExpanderError::MissingOutIndex {
                            index,
                            target: task.target.text(),
                            token: String::from_str(token),
                        },
                    );
                }
                let output = &task.outputs[index];
                let mut result = ExpandedResult::for_token(String::from_str(token));
                match output {
                    OutputPath::ProjectFile(_) | OutputPath::WorkspaceFile(_) => {
                        let path = output.to_workspace_relative(self.project.source.as_str());
                        let file = self.replace_all_variables(task, path.unwrap().as_str());
                        crate::expanded::push_text(&mut result.files, file);
                        assert(result@.files =~= seq![file@]);
                    },
                    OutputPath::ProjectGlob(_) | OutputPath::WorkspaceGlob(_) => {
                        let path = output.to_workspace_relative(self.project.source.as_str());
                        let glob = self.replace_all_variables(task, path.unwrap().as_str());
                        crate::expanded::push_text(&mut result.globs, glob);
                        assert(result@.globs =~= seq![glob@]);
                    },
                    OutputPath::TokenFunc(inner) => {
                        if depth == 0 {
                            return Err(
                                TokenExpanderError::InvalidTokenIndexReference {
                                    target: task.target.text(),
                                    token: String::from_str(token),
                                },
                            );
                        }
                        match self.evaluate(task, inner.as_str(), depth - 1) {
                            Ok(nested) => {
                                result.files = nested.files;
                                result.globs = nested.globs;
                            },
                            Err(e) => {
                                return Err(e);
                            },
                        }
                    },
                    _ => {
                        return Err(
                            TokenExpanderError::InvalidTokenIndexReference {
                                target: task.target.text(),
                                token: String::from_str(token),
                            },
                        );
                    },
                }
                Ok(result)
            },
            TokenFunction::Meta => {
                let mut result = ExpandedResult::for_token(String::from_str(token));
                result.value = metadata_value(&self.project.metadata, arg);
                Ok(result)
            },
            _ => self.evaluate_group(function, token, arg),
        }
    }

    /// Evaluates the leftmost token function of `value` in the current
    /// scope.
    ///
    /// The functions on a file group give its root, directories, files,
    /// globs, environment variables or all of it; `@in` and `@out` give an
    /// input or output of the task, following a token function that stands
    /// there; `@meta` gives a value of the project's metadata. The result
    /// names the token that was evaluated. Fails where `value` holds no
    /// token function, where the function is not known or not allowed in the
    /// scope, and where what it refers to is missing.
    pub fn replace_function(&self, task: &Task, value: &str) -> (r: Result<
        ExpandedResult,
        TokenExpanderError,
    >)
        ensures
            outcome(r) == self@.evaluate(task@, value@, MAX_DEPTH as nat),
    {
        self.evaluate(task, value, MAX_DEPTH)
    }
}

} // verus!
