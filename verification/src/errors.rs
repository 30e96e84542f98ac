//! What can go wrong while tokens are expanded.
use vstd::prelude::*;

verus! {

/// A file group that cannot give what was asked of it.
#[derive(Clone, Debug, PartialEq, Eq)]
pub enum FileGroupError {
    /// A declared path is neither a file nor a directory.
    MissingPath { group: String, path: String },
    /// The group declares neither a file nor a glob.
    NoFilesOrGlobs { group: String },
    /// The group declares no glob.
    NoGlobs { group: String },
    /// The group declares no environment variable.
    NoEnvVars { group: String },
}

pub enum FileGroupErrorView {
    MissingPath { group: Seq<char>, path: Seq<char> },
    NoFilesOrGlobs { group: Seq<char> },
    NoGlobs { group: Seq<char> },
    NoEnvVars { group: Seq<char> },
}

impl View for FileGroupError {
    type V = FileGroupErrorView;

    open spec fn view(&self) -> FileGroupErrorView {
        match self {
            FileGroupError::MissingPath { group, path } => FileGroupErrorView::MissingPath {
                group: group@,
                path: path@,
            },
            FileGroupError::NoFilesOrGlobs { group } => FileGroupErrorView::NoFilesOrGlobs {
                group: group@,
            },
            FileGroupError::NoGlobs { group } => FileGroupErrorView::NoGlobs { group: group@ },
            FileGroupError::NoEnvVars { group } => FileGroupErrorView::NoEnvVars { group: group@ },
        }
    }
}

/// Why a field of a task could not be expanded.
#[derive(Clone, Debug, PartialEq, Eq)]
pub enum TokenExpanderError {
    /// The token function has a name that is not known.
    UnknownToken { token: String },
    /// The token function is not allowed in the field being expanded.
    InvalidTokenScope { target: String, token: String, scope: String },
    /// The token function names a file group that the project lacks.
    UnknownFileGroup { group: String, token: String },
    /// `@in` asks for an input that the task lacks.
    MissingInIndex { index: usize, target: String, token: String },
    /// `@out` asks for an output that the task lacks.
    MissingOutIndex { index: usize, target: String, token: String },
    /// The argument of `@in` or `@out` is no index.
    InvalidTokenIndex { target: String, token: String, index: String },
    /// `@in` or `@out` refers to something that is no path.
    InvalidTokenIndexReference { target: String, token: String },
    /// The file group named by the token function failed.
    FileGroup(FileGroupError),
}

pub enum TokenExpanderErrorView {
    UnknownToken { token: Seq<char> },
    InvalidTokenScope { target: Seq<char>, token: Seq<char>, scope: Seq<char> },
    UnknownFileGroup { group: Seq<char>, token: Seq<char> },
    MissingInIndex { index: usize, target: Seq<char>, token: Seq<char> },
    MissingOutIndex { index: usize, target: Seq<char>, token: Seq<char> },
    InvalidTokenIndex { target: Seq<char>, token: Seq<char>, index: Seq<char> },
    InvalidTokenIndexReference { target: Seq<char>, token: Seq<char> },
    FileGroup(FileGroupErrorView),
}

impl View for TokenExpanderError {
    type V = TokenExpanderErrorView;

    open spec fn view(&self) -> TokenExpanderErrorView {
        match self {
            TokenExpanderError::UnknownToken { token } => TokenExpanderErrorView::UnknownToken {
                token: token@,
            },
            TokenExpanderError::InvalidTokenScope {
                target,
                token,
                scope,
            } => TokenExpanderErrorView::InvalidTokenScope {
                target: target@,
                token: token@,
                scope: scope@,
            },
            TokenExpanderError::UnknownFileGroup {
                group,
                token,
            } => TokenExpanderErrorView::UnknownFileGroup { group: group@, token: token@ },
            TokenExpanderError::MissingInIndex {
                index,
                target,
                token,
            } => TokenExpanderErrorView::MissingInIndex {
                index: *index,
                target: target@,
                token: token@,
            },
            TokenExpanderError::MissingOutIndex {
                index,
                target,
                token,
            } => TokenExpanderErrorView::MissingOutIndex {
                index: *index,
                target: target@,
                token: token@,
            },
            TokenExpanderError::InvalidTokenIndex {
                target,
                token,
                index,
            } => TokenExpanderErrorView::InvalidTokenIndex {
                target: target@,
                token: token@,
                index: index@,
            },
            TokenExpanderError::InvalidTokenIndexReference {
                target,
                token,
            } => TokenExpanderErrorView::InvalidTokenIndexReference {
                target: target@,
                token: token@,
            },
            TokenExpanderError::FileGroup(e) => TokenExpanderErrorView::FileGroup(e@),
        }
    }
}

} // verus!
