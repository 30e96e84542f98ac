//! The values that expansion reads: projects, file groups, tasks, the
//! expansion context and a snapshot of the host, each with its model.
use vstd::prelude::*;

verus! {

/// The models of the items of `v`, in order.
pub open spec fn views<T: View>(v: Seq<T>) -> Seq<T::V> {
    Seq::new(v.len(), |i: int| v[i]@)
}

/// The model of an optional text.
pub open spec fn text_of(o: Option<String>) -> Option<Seq<char>> {
    match o {
        Some(s) => Some(s@),
        None => None,
    }
}

/// A name with the value that belongs to it.
#[derive(Clone, Debug, PartialEq, Eq)]
pub struct Entry {
    pub key: String,
    pub value: String,
}

pub struct EntryView {
    pub key: Seq<char>,
    pub value: Seq<char>,
}

impl View for Entry {
    type V = EntryView;

    open spec fn view(&self) -> EntryView {
        EntryView { key: self.key@, value: self.value@ }
    }
}

/// The value of the first entry named `key`.
pub open spec fn lookup(entries: Seq<EntryView>, key: Seq<char>) -> Option<Seq<char>>
    decreases entries.len(),
{
    if entries.len() == 0 {
        None
    } else if entries[0].key == key {
        Some(entries[0].value)
    } else {
        lookup(entries.drop_first(), key)
    }
}

/// A named, declared collection of files, globs and environment variable
/// names. All paths are relative to the workspace.
#[derive(Clone, Debug, PartialEq, Eq)]
pub struct FileGroup {
    pub id: String,
    pub files: Vec<String>,
    pub globs: Vec<String>,
    pub env: Vec<String>,
}

pub struct FileGroupView {
    pub id: Seq<char>,
    pub files: Seq<Seq<char>>,
    pub globs: Seq<Seq<char>>,
    pub env: Seq<Seq<char>>,
}

impl View for FileGroup {
    type V = FileGroupView;

    open spec fn view(&self) -> FileGroupView {
        FileGroupView {
            id: self.id@,
            files: views(self.files@),
            globs: views(self.globs@),
            env: views(self.env@),
        }
    }
}

/// What a project says about itself.
#[derive(Clone, Debug, PartialEq, Eq)]
pub struct ProjectMetadata {
    pub name: Option<String>,
    pub description: String,
    pub channel: Option<String>,
    pub owner: Option<String>,
    pub maintainers: Vec<String>,
    /// Further keys that the project declares, each with its value.
    pub custom: Vec<Entry>,
}

pub struct ProjectMetadataView {
    pub name: Option<Seq<char>>,
    pub description: Seq<char>,
    pub channel: Option<Seq<char>>,
    pub owner: Option<Seq<char>>,
    pub maintainers: Seq<Seq<char>>,
    pub custom: Seq<EntryView>,
}

impl View for ProjectMetadata {
    type V = ProjectMetadataView;

    open spec fn view(&self) -> ProjectMetadataView {
        ProjectMetadataView {
            name: text_of(self.name),
            description: self.description@,
            channel: text_of(self.channel),
            owner: text_of(self.owner),
            maintainers: views(self.maintainers@),
            custom: views(self.custom@),
        }
    }
}

/// The model of optional metadata.
pub open spec fn metadata_of(o: Option<ProjectMetadata>) -> Option<ProjectMetadataView> {
    match o {
        Some(md) => Some(md@),
        None => None,
    }
}

/// A project of the workspace.
#[derive(Clone, Debug, PartialEq, Eq)]
pub struct Project {
    pub id: String,
    /// The project's directory, relative to the workspace.
    pub source: String,
    /// The project's directory as an absolute path.
    pub root: String,
    pub alias: Option<String>,
    pub language: String,
    pub stack: String,
    pub type_of: String,
    pub metadata: Option<ProjectMetadata>,
    pub file_groups: Vec<FileGroup>,
}

pub struct ProjectView {
    pub id: Seq<char>,
    pub source: Seq<char>,
    pub root: Seq<char>,
    pub alias: Option<Seq<char>>,
    pub language: Seq<char>,
    pub stack: Seq<char>,
    pub type_of: Seq<char>,
    pub metadata: Option<ProjectMetadataView>,
    pub file_groups: Seq<FileGroupView>,
}

impl View for Project {
    type V = ProjectView;

    open spec fn view(&self) -> ProjectView {
        ProjectView {
            id: self.id@,
            source: self.source@,
            root: self.root@,
            alias: text_of(self.alias),
            language: self.language@,
            stack: self.stack@,
            type_of: self.type_of@,
            metadata: metadata_of(self.metadata),
            file_groups: views(self.file_groups@),
        }
    }
}

/// The first group named `id` among `groups`, as its position.
pub open spec fn group_index(groups: Seq<FileGroupView>, id: Seq<char>) -> Option<int>
    decreases groups.len(),
{
    if groups.len() == 0 {
        None
    } else if groups.last().id == id && group_index(groups.drop_last(), id) is None {
        Some(groups.len() - 1)
    } else {
        group_index(groups.drop_last(), id)
    }
}

/// One input of a task.
#[derive(Clone, Debug, PartialEq, Eq)]
pub enum InputPath {
    /// An environment variable, by name.
    EnvVar(String),
    /// Environment variables by a pattern in which `*` stands for a run of
    /// capitals, digits and `_`.
    EnvVarGlob(String),
    /// A file, relative to the project.
    ProjectFile(String),
    /// A glob, relative to the project.
    ProjectGlob(String),
    /// A token function, as written.
    TokenFunc(String),
    /// A token variable, as written.
    TokenVar(String),
    /// A file, relative to the workspace.
    WorkspaceFile(String),
    /// A glob, relative to the workspace.
    WorkspaceGlob(String),
}

pub enum InputPathView {
    EnvVar(Seq<char>),
    EnvVarGlob(Seq<char>),
    ProjectFile(Seq<char>),
    ProjectGlob(Seq<char>),
    TokenFunc(Seq<char>),
    TokenVar(Seq<char>),
    WorkspaceFile(Seq<char>),
    WorkspaceGlob(Seq<char>),
}

impl View for InputPath {
    type V = InputPathView;

    open spec fn view(&self) -> InputPathView {
        match self {
            InputPath::EnvVar(s) => InputPathView::EnvVar(s@),
            InputPath::EnvVarGlob(s) => InputPathView::EnvVarGlob(s@),
            InputPath::ProjectFile(s) => InputPathView::ProjectFile(s@),
            InputPath::ProjectGlob(s) => InputPathView::ProjectGlob(s@),
            InputPath::TokenFunc(s) => InputPathView::TokenFunc(s@),
            InputPath::TokenVar(s) => InputPathView::TokenVar(s@),
            InputPath::WorkspaceFile(s) => InputPathView::WorkspaceFile(s@),
            InputPath::WorkspaceGlob(s) => InputPathView::WorkspaceGlob(s@),
        }
    }
}

/// One output of a task.
#[derive(Clone, Debug, PartialEq, Eq)]
pub enum OutputPath {
    /// A file, relative to the project.
    ProjectFile(String),
    /// A glob, relative to the project.
    ProjectGlob(String),
    /// A token function, as written.
    TokenFunc(String),
    /// A token variable, as written.
    TokenVar(String),
    /// A file, relative to the workspace.
    WorkspaceFile(String),
    /// A glob, relative to the workspace.
    WorkspaceGlob(String),
}

pub enum OutputPathView {
    ProjectFile(Seq<char>),
    ProjectGlob(Seq<char>),
    TokenFunc(Seq<char>),
    TokenVar(Seq<char>),
    WorkspaceFile(Seq<char>),
    WorkspaceGlob(Seq<char>),
}

impl View for OutputPath {
    type V = OutputPathView;

    open spec fn view(&self) -> OutputPathView {
        match self {
            OutputPath::ProjectFile(s) => OutputPathView::ProjectFile(s@),
            OutputPath::ProjectGlob(s) => OutputPathView::ProjectGlob(s@),
            OutputPath::TokenFunc(s) => OutputPathView::TokenFunc(s@),
            OutputPath::TokenVar(s) => OutputPathView::TokenVar(s@),
            OutputPath::WorkspaceFile(s) => OutputPathView::WorkspaceFile(s@),
            OutputPath::WorkspaceGlob(s) => OutputPathView::WorkspaceGlob(s@),
        }
    }
}

/// A task of a project, named by both.
#[derive(Clone, Debug, PartialEq, Eq)]
pub struct Target {
    pub project_id: String,
    pub task_id: String,
}

pub struct TargetView {
    pub project_id: Seq<char>,
    pub task_id: Seq<char>,
}

impl View for Target {
    type V = TargetView;

    open spec fn view(&self) -> TargetView {
        TargetView { project_id: self.project_id@, task_id: self.task_id@ }
    }
}

impl TargetView {
    /// The target as `project:task`.
    pub open spec fn text(self) -> Seq<char> {
        self.project_id + seq![':'] + self.task_id
    }
}

impl Target {
    /// The target as `project:task`.
    pub fn text(&self) -> (r: String)
        ensures
            r@ == self@.text(),
    {
        let mut out = self.project_id.clone();
        proof {
            reveal_strlit(":");
            assert(":"@ =~= seq![':']);
        }
        out.append(":");
        out.append(self.task_id.as_str());
        out
    }
}

#[derive(Clone, Copy, Debug, PartialEq, Eq)]
pub struct TaskOptions {
    /// Whether the task runs in the workspace root and not in its project.
    pub run_from_workspace_root: bool,
    pub allow_failure: bool,
}

/// A task as its author wrote it.
#[derive(Clone, Debug, PartialEq, Eq)]
pub struct Task {
    pub target: Target,
    pub id: String,
    pub command: String,
    pub script: Option<String>,
    pub args: Vec<String>,
    pub env: Vec<Entry>,
    pub inputs: Vec<InputPath>,
    pub outputs: Vec<OutputPath>,
    pub options: TaskOptions,
    pub platform: String,
    pub type_of: String,
}

pub struct TaskView {
    pub target: TargetView,
    pub id: Seq<char>,
    pub command: Seq<char>,
    pub script: Option<Seq<char>>,
    pub args: Seq<Seq<char>>,
    pub env: Seq<EntryView>,
    pub inputs: Seq<InputPathView>,
    pub outputs: Seq<OutputPathView>,
    pub options: TaskOptions,
    pub platform: Seq<char>,
    pub type_of: Seq<char>,
}

impl View for Task {
    type V = TaskView;

    open spec fn view(&self) -> TaskView {
        TaskView {
            target: self.target@,
            id: self.id@,
            command: self.command@,
            script: text_of(self.script),
            args: views(self.args@),
            env: views(self.env@),
            inputs: views(self.inputs@),
            outputs: views(self.outputs@),
            options: self.options,
            platform: self.platform@,
            type_of: self.type_of@,
        }
    }
}

/// Where expansion takes place, and what version control says of it.
#[derive(Clone, Debug, PartialEq, Eq)]
pub struct ExpansionContext {
    pub workspace_root: String,
    pub working_dir: String,
    pub vcs_branch: String,
    pub vcs_repository: String,
    pub vcs_revision: String,
}

pub struct ExpansionContextView {
    pub workspace_root: Seq<char>,
    pub working_dir: Seq<char>,
    pub vcs_branch: Seq<char>,
    pub vcs_repository: Seq<char>,
    pub vcs_revision: Seq<char>,
}

impl View for ExpansionContext {
    type V = ExpansionContextView;

    open spec fn view(&self) -> ExpansionContextView {
        ExpansionContextView {
            workspace_root: self.workspace_root@,
            working_dir: self.working_dir@,
            vcs_branch: self.vcs_branch@,
            vcs_repository: self.vcs_repository@,
            vcs_revision: self.vcs_revision@,
        }
    }
}

/// What a path of the workspace is on disk.
#[derive(Clone, Copy, Debug, PartialEq, Eq, Structural)]
pub enum PathKind {
    Directory,
    File,
    Missing,
}

/// What expansion reads of the machine, taken once: expansion itself reads
/// neither the environment, nor the disk, nor the clock.
#[derive(Clone, Debug, PartialEq, Eq)]
pub struct HostSnapshot {
    pub arch: String,
    pub os: String,
    pub os_family: String,
    /// The names of the environment variables of the process.
    pub env_vars: Vec<String>,
    /// The clock, in milliseconds since the Unix epoch.
    pub now_millis: u64,
    /// The workspace-relative paths that are directories.
    pub dirs: Vec<String>,
    /// The workspace-relative paths that are regular files.
    pub files: Vec<String>,
}

pub struct HostSnapshotView {
    pub arch: Seq<char>,
    pub os: Seq<char>,
    pub os_family: Seq<char>,
    pub env_vars: Seq<Seq<char>>,
    pub now_millis: u64,
    pub dirs: Seq<Seq<char>>,
    pub files: Seq<Seq<char>>,
}

impl View for HostSnapshot {
    type V = HostSnapshotView;

    open spec fn view(&self) -> HostSnapshotView {
        HostSnapshotView {
            arch: self.arch@,
            os: self.os@,
            os_family: self.os_family@,
            env_vars: views(self.env_vars@),
            now_millis: self.now_millis,
            dirs: views(self.dirs@),
            files: views(self.files@),
        }
    }
}

impl HostSnapshotView {
    /// What the snapshot says of `path`: a directory where it is listed as
    /// one, else a file where it is listed as one, else missing.
    pub open spec fn kind_of(self, path: Seq<char>) -> PathKind {
        if self.dirs.contains(path) {
            PathKind::Directory
        } else if self.files.contains(path) {
            PathKind::File
        } else {
            PathKind::Missing
        }
    }
}

/// Whether `list` holds the text `s`.
pub fn holds_text(list: &Vec<String>, s: &str) -> (r: bool)
    ensures
        r == views(list@).contains(s@),
{
    let mut i: usize = 0;
    while i < list.len()
        invariant
            i <= list.len(),
            forall|k: int| 0 <= k < i ==> views(list@)[k] != s@,
        decreases list.len() - i,
    {
        if crate::text::same_text(list[i].as_str(), s) {
            assert(views(list@)[i as int] == s@);
            return true;
        }
        i += 1;
    }
    false
}

impl HostSnapshot {
    /// What the snapshot says of `path`.
    pub fn kind_of(&self, path: &str) -> (r: PathKind)
        ensures
            r == self@.kind_of(path@),
    {
        if holds_text(&self.dirs, path) {
            PathKind::Directory
        } else if holds_text(&self.files, path) {
            PathKind::File
        } else {
            PathKind::Missing
        }
    }
}

/// The value of the first entry named `key`, if there is one.
pub fn find_entry<'a>(entries: &'a Vec<Entry>, key: &str) -> (r: Option<&'a String>)
    ensures
        text_of_ref(r) == lookup(views(entries@), key@),
{
    let mut i: usize = 0;
    assert(views(entries@).subrange(0, entries.len() as int) =~= views(entries@));
    while i < entries.len()
        invariant
            i <= entries.len(),
            lookup(views(entries@).subrange(i as int, entries.len() as int), key@) == lookup(
                views(entries@),
                key@,
            ),
        decreases entries.len() - i,
    {
        let ghost rest = views(entries@).subrange(i as int, entries.len() as int);
        assert(rest[0] == entries[i as int]@);
        assert(rest.drop_first() =~= views(entries@).subrange(i + 1, entries.len() as int));
        if crate::text::same_text(entries[i].key.as_str(), key) {
            return Some(&entries[i].value);
        }
        i += 1;
    }
    assert(views(entries@).subrange(i as int, entries.len() as int).len() == 0);
    None
}

/// The model of an optional borrowed text.
pub open spec fn text_of_ref(o: Option<&String>) -> Option<Seq<char>> {
    match o {
        Some(s) => Some(s@),
        None => None,
    }
}

/// The first group named `id`, if the project has one.
pub fn find_group<'a>(groups: &'a Vec<FileGroup>, id: &str) -> (r: Option<&'a FileGroup>)
    ensures
        match r {
            Some(g) => group_index(views(groups@), id@) is Some && g@ == views(
                groups@,
            )[group_index(views(groups@), id@).unwrap()],
            None => group_index(views(groups@), id@) is None,
        },
{
    let mut i: usize = 0;
    while i < groups.len()
        invariant
            i <= groups.len(),
            group_index(views(groups@).take(i as int), id@) is None,
        decreases groups.len() - i,
    {
        let ghost all = views(groups@);
        assert(all.take(i + 1).drop_last() =~= all.take(i as int));
        assert(all.take(i + 1).last() == groups[i as int]@);
        if crate::text::same_text(groups[i].id.as_str(), id) {
            proof {
                lemma_group_index_stable(all, id@, i + 1);
            }
            return Some(&groups[i]);
        }
        i += 1;
    }
    assert(views(groups@).take(i as int) =~= views(groups@));
    None
}

/// Once a prefix of the groups holds the name, later groups do not change
/// which one is found.
pub proof fn lemma_group_index_stable(groups: Seq<FileGroupView>, id: Seq<char>, n: int)
    requires
        0 <= n <= groups.len(),
        group_index(groups.take(n), id) is Some,
    ensures
        group_index(groups, id) == group_index(groups.take(n), id),
    decreases groups.len() - n,
{
    if n < groups.len() {
        assert(groups.take(n + 1).drop_last() =~= groups.take(n));
        lemma_group_index_stable(groups, id, n + 1);
    } else {
        assert(groups.take(n) =~= groups);
    }
}

} // verus!
