//! The field of a task that is being expanded, and which token functions
//! are allowed in it.
use vstd::prelude::*;
use vstd::string::*;

verus! {

/// The field of a task that is being expanded.
#[derive(Clone, Copy, Debug, PartialEq, Eq, Structural)]
pub enum TokenScope {
    Command,
    Script,
    Args,
    Env,
    Inputs,
    Outputs,
}

impl TokenScope {
    /// How the scope is called in messages.
    pub open spec fn label_text(self) -> Seq<char> {
        match self {
            TokenScope::Command => "commands"@,
            TokenScope::Script => "scripts"@,
            TokenScope::Args => "args"@,
            TokenScope::Env => "env"@,
            TokenScope::Inputs => "inputs"@,
            TokenScope::Outputs => "outputs"@,
        }
    }

    /// How the scope is called in messages.
    pub fn label(&self) -> (r: String)
        ensures
            r@ == self.label_text(),
    {
        String::from_str(
            match self {
                TokenScope::Command => "commands",
                TokenScope::Script => "scripts",
                TokenScope::Args => "args",
                TokenScope::Env => "env",
                TokenScope::Inputs => "inputs",
                TokenScope::Outputs => "outputs",
            },
        )
    }
}

/// The token functions, by what they give.
#[derive(Clone, Copy, Debug, PartialEq, Eq, Structural)]
pub enum TokenFunction {
    /// `@root(group)`: the root of a file group.
    Root,
    /// `@dirs(group)`: the directories of a file group.
    Dirs,
    /// `@files(group)`: the files of a file group.
    Files,
    /// `@globs(group)`: the globs of a file group.
    Globs,
    /// `@group(group)`: all that a file group declares.
    Group,
    /// `@in(index)`: one input of the task.
    In,
    /// `@out(index)`: one output of the task.
    Out,
    /// `@envs(group)`: the environment variables of a file group.
    Envs,
    /// `@meta(key)`: one value of the project's metadata.
    Meta,
}

/// The token function called `name`, if there is one.
pub open spec fn function_named(name: Seq<char>) -> Option<TokenFunction> {
    if name == "root"@ {
        Some(TokenFunction::Root)
    } else if name == "dirs"@ {
        Some(TokenFunction::Dirs)
    } else if name == "files"@ {
        Some(TokenFunction::Files)
    } else if name == "globs"@ {
        Some(TokenFunction::Globs)
    } else if name == "group"@ {
        Some(TokenFunction::Group)
    } else if name == "in"@ {
        Some(TokenFunction::In)
    } else if name == "out"@ {
        Some(TokenFunction::Out)
    } else if name == "envs"@ {
        Some(TokenFunction::Envs)
    } else if name == "meta"@ {
        Some(TokenFunction::Meta)
    } else {
        None
    }
}

/// Whether a token function that reads a file group may stand in `scope`.
pub open spec fn group_allowed_in(scope: TokenScope) -> bool {
    scope != TokenScope::Command
}

/// Whether `function` may stand in `scope`.
pub open spec fn allowed_in(function: TokenFunction, scope: TokenScope) -> bool {
    match function {
        TokenFunction::Root
        | TokenFunction::Dirs
        | TokenFunction::Files
        | TokenFunction::Globs
        | TokenFunction::Group => group_allowed_in(scope),
        TokenFunction::In | TokenFunction::Out => scope == TokenScope::Script || scope
            == TokenScope::Args,
        TokenFunction::Envs => scope == TokenScope::Inputs,
        TokenFunction::Meta => scope == TokenScope::Command || scope == TokenScope::Script
            || scope == TokenScope::Args || scope == TokenScope::Env,
    }
}

/// The token function called `name`, if there is one.
pub fn function_by_name(name: &str) -> (r: Option<TokenFunction>)
    ensures
        r == function_named(name@),
{
    if crate::text::same_text(name, "root") {
        Some(TokenFunction::Root)
    } else if crate::text::same_text(name, "dirs") {
        Some(TokenFunction::Dirs)
    } else if crate::text::same_text(name, "files") {
        Some(TokenFunction::Files)
    } else if crate::text::same_text(name, "globs") {
        Some(TokenFunction::Globs)
    } else if crate::text::same_text(name, "group") {
        Some(TokenFunction::Group)
    } else if crate::text::same_text(name, "in") {
        Some(TokenFunction::In)
    } else if crate::text::same_text(name, "out") {
        Some(TokenFunction::Out)
    } else if crate::text::same_text(name, "envs") {
        Some(TokenFunction::Envs)
    } else if crate::text::same_text(name, "meta") {
        Some(TokenFunction::Meta)
    } else {
        None
    }
}

/// Whether `function` may stand in `scope`.
pub fn is_allowed_in(function: TokenFunction, scope: TokenScope) -> (r: bool)
    ensures
        r == allowed_in(function, scope),
{
    match function {
        TokenFunction::Root
        | TokenFunction::Dirs
        | TokenFunction::Files
        | TokenFunction::Globs
        | TokenFunction::Group => scope != TokenScope::Command,
        TokenFunction::In | TokenFunction::Out => scope == TokenScope::Script || scope
            == TokenScope::Args,
        TokenFunction::Envs => scope == TokenScope::Inputs,
        TokenFunction::Meta => scope == TokenScope::Command || scope == TokenScope::Script
            || scope == TokenScope::Args || scope == TokenScope::Env,
    }
}

} // verus!
