//! A role's on-disk state. The functions here do no I/O: each takes a
//! snapshot of what occupies the role's places and returns the filesystem
//! operations that bring them where they should be, or the place that is in
//! the way. Their contracts are stated over `RoleDisk`, a model of those
//! places with the text of each file, through `run`.
use vstd::prelude::*;
use vstd::string::StringExecFns;

use crate::text::chars_of;

verus! {

/// `part` appended to `base` as one more path component.
pub open spec fn join_path(base: Seq<char>, part: Seq<char>) -> Seq<char> {
    if base.len() == 0 || base.last() == '/' {
        base + part
    } else {
        base + "/"@ + part
    }
}

pub open spec fn state_root_spec(project_root: Seq<char>) -> Seq<char> {
    join_path(project_root, ".juliet"@)
}

pub open spec fn role_dir_spec(project_root: Seq<char>, role_name: Seq<char>) -> Seq<char> {
    join_path(state_root_spec(project_root), role_name)
}

/// The name of the `i`th of the five state files.
pub open spec fn state_file_name(i: int) -> Seq<char> {
    if i == 0 {
        "session.md"@
    } else if i == 1 {
        "needs-from-operator.md"@
    } else if i == 2 {
        "projects.md"@
    } else if i == 3 {
        "processes.md"@
    } else {
        "learnings.md"@
    }
}

/// The number of state files a role keeps.
pub const STATE_FILE_COUNT: usize = 5;

/// The canonical contents of the state root's `.gitignore`: everything is
/// ignored but directories and each role's `prompt.md`.
pub open spec fn gitignore_contents() -> Seq<char> {
    "# Managed by juliet: keep role prompt customizations, ignore runtime state.\n*\n!.gitignore\n!*/\n!*/prompt.md\n"@
}

/// A place of a role's on-disk state.
#[derive(Clone, Copy, Debug, PartialEq, Eq, Structural)]
pub enum Target {
    /// `<project>/.juliet`
    StateRoot,
    /// `<project>/.juliet/.gitignore`
    Gitignore,
    /// `<project>/.juliet/<role>`
    RoleDir,
    /// `<role>/prompt.md`
    Prompt,
    /// `<role>/<state file>`, by its index among the five
    StateFile(usize),
    /// `<role>/artifacts`
    Artifacts,
    /// `<role>/juliet-prompt.md`
    RuntimePrompt,
}

/// The path of a place of `role_name`'s state under `project_root`.
pub open spec fn target_path_spec(project_root: Seq<char>, role_name: Seq<char>, t: Target) -> Seq<
    char,
> {
    let dir = role_dir_spec(project_root, role_name);
    match t {
        Target::StateRoot => state_root_spec(project_root),
        Target::Gitignore => join_path(state_root_spec(project_root), ".gitignore"@),
        Target::RoleDir => dir,
        Target::Prompt => join_path(dir, "prompt.md"@),
        Target::StateFile(i) => join_path(dir, state_file_name(i as int)),
        Target::Artifacts => join_path(dir, "artifacts"@),
        Target::RuntimePrompt => join_path(dir, "juliet-prompt.md"@),
    }
}

fn join_path_exec(base: &str, part: &str) -> (r: String)
    ensures
        r@ == join_path(base@, part@),
{
    let chars = chars_of(base);
    let mut out = String::from_str(base);
    if chars.len() > 0 && chars[chars.len() - 1] != '/' {
        out.append("/");
    }
    out.append(part);
    out
}

/// The state directory of a role: `<project>/.juliet/<role>`.
pub fn role_state_dir(project_root: &str, role_name: &str) -> (r: String)
    ensures
        r@ == role_dir_spec(project_root@, role_name@),
{
    let root = join_path_exec(project_root, ".juliet");
    join_path_exec(root.as_str(), role_name)
}

/// The state root's `.gitignore`.
pub fn state_gitignore_path(project_root: &str) -> (r: String)
    ensures
        r@ == join_path(state_root_spec(project_root@), ".gitignore"@),
{
    let root = join_path_exec(project_root, ".juliet");
    join_path_exec(root.as_str(), ".gitignore")
}

/// A role's editable prompt.
pub fn role_prompt_path(project_root: &str, role_name: &str) -> (r: String)
    ensures
        r@ == target_path_spec(project_root@, role_name@, Target::Prompt),
{
    let dir = role_state_dir(project_root, role_name);
    join_path_exec(dir.as_str(), "prompt.md")
}

/// A role's transient runtime copy of its prompt.
pub fn runtime_prompt_path(project_root: &str, role_name: &str) -> (r: String)
    ensures
        r@ == target_path_spec(project_root@, role_name@, Target::RuntimePrompt),
{
    let dir = role_state_dir(project_root, role_name);
    join_path_exec(dir.as_str(), "juliet-prompt.md")
}

fn state_file_name_exec(i: usize) -> (r: &'static str)
    ensures
        r@ == state_file_name(i as int),
{
    if i == 0 {
        "session.md"
    } else if i == 1 {
        "needs-from-operator.md"
    } else if i == 2 {
        "projects.md"
    } else if i == 3 {
        "processes.md"
    } else {
        "learnings.md"
    }
}

/// The path of any place of a role's state.
pub fn target_path(project_root: &str, role_name: &str, t: Target) -> (r: String)
    ensures
        r@ == target_path_spec(project_root@, role_name@, t),
{
    match t {
        Target::StateRoot => join_path_exec(project_root, ".juliet"),
        Target::Gitignore => state_gitignore_path(project_root),
        Target::RoleDir => role_state_dir(project_root, role_name),
        Target::Prompt => role_prompt_path(project_root, role_name),
        Target::StateFile(i) => {
            let dir = role_state_dir(project_root, role_name);
            join_path_exec(dir.as_str(), state_file_name_exec(i))
        },
        Target::Artifacts => {
            let dir = role_state_dir(project_root, role_name);
            join_path_exec(dir.as_str(), "artifacts")
        },
        Target::RuntimePrompt => runtime_prompt_path(project_root, role_name),
    }
}

/// What occupies a path.
#[derive(Clone, Copy, Debug, PartialEq, Eq, Structural)]
pub enum EntryKind {
    Missing,
    File,
    Dir,
}

/// The kinds of the places of one role's state, observed together.
#[derive(Clone, Copy, Debug, PartialEq, Eq)]
pub struct RoleSnapshot {
    pub state_root: EntryKind,
    pub gitignore: EntryKind,
    pub role_dir: EntryKind,
    pub prompt: EntryKind,
    pub state_files: [EntryKind; 5],
    pub artifacts: EntryKind,
    pub runtime_prompt: EntryKind,
}

/// The kind of the place `t` in a snapshot.
pub open spec fn kind_at(s: RoleSnapshot, t: Target) -> EntryKind {
    match t {
        Target::StateRoot => s.state_root,
        Target::Gitignore => s.gitignore,
        Target::RoleDir => s.role_dir,
        Target::Prompt => s.prompt,
        Target::StateFile(i) => s.state_files@[i as int],
        Target::Artifacts => s.artifacts,
        Target::RuntimePrompt => s.runtime_prompt,
    }
}

/// What a place holds: nothing, a file with its text, or a directory.
pub enum Node {
    Missing,
    File(Seq<char>),
    Dir,
}

pub open spec fn kind_of(n: Node) -> EntryKind {
    match n {
        Node::Missing => EntryKind::Missing,
        Node::File(_) => EntryKind::File,
        Node::Dir => EntryKind::Dir,
    }
}

/// One role's state on disk, as far as this library reads or writes it.
pub struct RoleDisk {
    pub state_root: Node,
    pub gitignore: Node,
    pub role_dir: Node,
    pub prompt: Node,
    pub state_files: Seq<Node>,
    pub artifacts: Node,
    /// The names of the entries directly inside `artifacts`.
    pub artifact_entries: Set<Seq<char>>,
    pub runtime_prompt: Node,
}

/// Whether `t` names one of the five state files.
pub open spec fn valid_target(t: Target) -> bool {
    match t {
        Target::StateFile(i) => i < 5,
        _ => true,
    }
}

pub open spec fn node_at(d: RoleDisk, t: Target) -> Node {
    match t {
        Target::StateRoot => d.state_root,
        Target::Gitignore => d.gitignore,
        Target::RoleDir => d.role_dir,
        Target::Prompt => d.prompt,
        Target::StateFile(i) => d.state_files[i as int],
        Target::Artifacts => d.artifacts,
        Target::RuntimePrompt => d.runtime_prompt,
    }
}

pub open spec fn with_node(d: RoleDisk, t: Target, n: Node) -> RoleDisk {
    match t {
        Target::StateRoot => RoleDisk { state_root: n, ..d },
        Target::Gitignore => RoleDisk { gitignore: n, ..d },
        Target::RoleDir => RoleDisk { role_dir: n, ..d },
        Target::Prompt => RoleDisk { prompt: n, ..d },
        Target::StateFile(i) => RoleDisk { state_files: d.state_files.update(i as int, n), ..d },
        Target::Artifacts => RoleDisk { artifacts: n, ..d },
        Target::RuntimePrompt => RoleDisk { runtime_prompt: n, ..d },
    }
}

impl RoleSnapshot {
    /// Whether this snapshot records the kinds of the places of `d`.
    pub open spec fn observes(self, d: RoleDisk) -> bool {
        &&& d.state_files.len() == 5
        &&& forall|t: Target| valid_target(t) ==> #[trigger] kind_at(self, t) == kind_of(node_at(d, t))
    }
}

/// Whether the directory that holds `t` is present.
pub open spec fn parent_present(d: RoleDisk, t: Target) -> bool {
    match t {
        Target::StateRoot => true,
        Target::Gitignore | Target::RoleDir => d.state_root is Dir,
        _ => d.role_dir is Dir,
    }
}

pub open spec fn is_file_target(t: Target) -> bool {
    match t {
        Target::Gitignore | Target::Prompt | Target::StateFile(_) | Target::RuntimePrompt => true,
        _ => false,
    }
}

/// One filesystem operation on a role's state.
#[derive(Debug, PartialEq, Eq)]
pub enum FsOp {
    /// Create a directory whose parent is present.
    CreateDir(Target),
    /// Create or truncate a file and write the text into it.
    WriteFile(Target, String),
    /// Remove a file.
    RemoveFile(Target),
    /// Remove everything inside a directory, keeping the directory.
    EmptyDir(Target),
}

/// Whether `op` can be carried out on `d`.
pub open spec fn op_ok(d: RoleDisk, op: FsOp) -> bool {
    match op {
        FsOp::CreateDir(t) => valid_target(t) && !is_file_target(t) && node_at(d, t) is Missing
            && parent_present(d, t),
        FsOp::WriteFile(t, _) => valid_target(t) && is_file_target(t) && !(node_at(d, t) is Dir)
            && parent_present(d, t),
        FsOp::RemoveFile(t) => valid_target(t) && node_at(d, t) is File,
        FsOp::EmptyDir(t) => t == Target::Artifacts && d.artifacts is Dir,
    }
}

/// `d` after `op`.
pub open spec fn apply_op(d: RoleDisk, op: FsOp) -> RoleDisk {
    match op {
        FsOp::CreateDir(t) => if t == Target::Artifacts {
            RoleDisk { artifacts: Node::Dir, artifact_entries: Set::empty(), ..d }
        } else {
            with_node(d, t, Node::Dir)
        },
        FsOp::WriteFile(t, text) => with_node(d, t, Node::File(text@)),
        FsOp::RemoveFile(t) => with_node(d, t, Node::Missing),
        FsOp::EmptyDir(_) => RoleDisk { artifact_entries: Set::empty(), ..d },
    }
}

/// `d` after `ops` in order, or `None` where one of them cannot be carried
/// out.
pub open spec fn run(d: RoleDisk, ops: Seq<FsOp>) -> Option<RoleDisk>
    decreases ops.len(),
{
    if ops.len() == 0 {
        Some(d)
    } else {
        match run(d, ops.drop_last()) {
            Some(before) => if op_ok(before, ops.last()) {
                Some(apply_op(before, ops.last()))
            } else {
                None
            },
            None => None,
        }
    }
}

pub(crate) proof fn lemma_run_push(d: RoleDisk, ops: Seq<FsOp>, op: FsOp)
    ensures
        run(d, ops.push(op)) == match run(d, ops) {
            Some(before) => if op_ok(before, op) {
                Some(apply_op(before, op))
            } else {
                None
            },
            None => None,
        },
{
    assert(ops.push(op).drop_last() =~= ops);
}

/// Whether the place `t` is occupied by the wrong kind of entry for a role's
/// layout to be completed there.
pub open spec fn obstructs(s: RoleSnapshot, t: Target) -> bool {
    match t {
        Target::StateRoot => s.state_root == EntryKind::File,
        Target::Gitignore => s.gitignore == EntryKind::Dir,
        Target::RoleDir => s.role_dir == EntryKind::File,
        Target::Artifacts => s.artifacts == EntryKind::File,
        Target::StateFile(i) => i < 5 && s.state_files@[i as int] == EntryKind::Dir,
        _ => false,
    }
}

pub open spec fn blocks_gitignore(t: Target) -> bool {
    t == Target::StateRoot || t == Target::Gitignore
}

/// `d` with the state root present and its `.gitignore` canonical.
pub open spec fn with_gitignore(d: RoleDisk) -> RoleDisk {
    RoleDisk { state_root: Node::Dir, gitignore: Node::File(gitignore_contents()), ..d }
}

/// Plans the repair of the state root's `.gitignore`: the state root is
/// created if missing and the file is rewritten with its canonical text.
pub fn ensure_state_gitignore(snapshot: &RoleSnapshot) -> (r: Result<Vec<FsOp>, Target>)
    ensures
        match r {
            Err(t) => blocks_gitignore(t) && obstructs(*snapshot, t),
            Ok(ops) => {
                &&& !obstructs(*snapshot, Target::StateRoot)
                &&& !obstructs(*snapshot, Target::Gitignore)
                &&& forall|d: RoleDisk| #[trigger]
                    snapshot.observes(d) ==> run(d, ops@) == Some(with_gitignore(d))
            },
        },
{
    if snapshot.state_root == EntryKind::File {
        return Err(Target::StateRoot);
    }
    if snapshot.gitignore == EntryKind::Dir {
        return Err(Target::Gitignore);
    }
    let mut ops: Vec<FsOp> = Vec::new();
    let ghost first = ops@;
    if snapshot.state_root == EntryKind::Missing {
        ops.push(FsOp::CreateDir(Target::StateRoot));
    }
    let ghost middle = ops@;
    ops.push(
        FsOp::WriteFile(
            Target::Gitignore,
            String::from_str(
                "# Managed by juliet: keep role prompt customizations, ignore runtime state.\n*\n!.gitignore\n!*/\n!*/prompt.md\n",
            ),
        ),
    );
    proof {
        assert forall|d: RoleDisk| #[trigger] snapshot.observes(d) implies run(d, ops@) == Some(
            with_gitignore(d),
        ) by {
            assert(kind_at(*snapshot, Target::StateRoot) == kind_of(node_at(d, Target::StateRoot)));
            assert(kind_at(*snapshot, Target::Gitignore) == kind_of(node_at(d, Target::Gitignore)));
            if snapshot.state_root == EntryKind::Missing {
                lemma_run_push(d, first, middle.last());
                assert(middle =~= first.push(middle.last()));
            } else {
                assert(middle =~= first);
            }
            lemma_run_push(d, middle, ops@.last());
            assert(ops@ =~= middle.push(ops@.last()));
        }
    }
    Ok(ops)
}

/// A state file after creation: kept if present, empty if it was missing.
pub open spec fn filled(n: Node) -> Node {
    if n is Missing {
        Node::File(Seq::empty())
    } else {
        n
    }
}

/// `d` with the gitignore repaired, the role directory and `artifacts`
/// present, and the first `count` state files filled.
pub open spec fn created_upto(d: RoleDisk, count: int) -> RoleDisk {
    RoleDisk {
        role_dir: Node::Dir,
        artifacts: Node::Dir,
        artifact_entries: if d.artifacts is Dir {
            d.artifact_entries
        } else {
            Set::empty()
        },
        state_files: Seq::new(
            d.state_files.len(),
            |j: int|
                if j < count {
                    filled(d.state_files[j])
                } else {
                    d.state_files[j]
                },
        ),
        ..with_gitignore(d)
    }
}

/// `d` after a role's state is created: the gitignore repaired, the role
/// directory and `artifacts` present, each missing state file created
/// empty; every file that was present keeps its text.
pub open spec fn created(d: RoleDisk) -> RoleDisk {
    created_upto(d, 5)
}

/// Plans the creation of a role's state: the state root with its
/// `.gitignore`, the role directory, `artifacts`, and each missing state
/// file, empty. Nothing present is overwritten but the `.gitignore`.
pub fn create_role_state(snapshot: &RoleSnapshot) -> (r: Result<Vec<FsOp>, Target>)
    ensures
        match r {
            Err(t) => obstructs(*snapshot, t),
            Ok(ops) => {
                &&& forall|t: Target| !obstructs(*snapshot, t)
                &&& forall|d: RoleDisk| #[trigger]
                    snapshot.observes(d) ==> run(d, ops@) == Some(created(d))
            },
        },
{
    let mut ops = match ensure_state_gitignore(snapshot) {
        Ok(ops) => ops,
        Err(t) => return Err(t),
    };
    if snapshot.role_dir == EntryKind::File {
        return Err(Target::RoleDir);
    }
    if snapshot.artifacts == EntryKind::File {
        return Err(Target::Artifacts);
    }
    let mut k: usize = 0;
    while k < STATE_FILE_COUNT
        invariant
            k <= 5,
            forall|j: int| 0 <= j < k ==> snapshot.state_files@[j] != EntryKind::Dir,
        decreases 5 - k,
    {
        if snapshot.state_files[k] == EntryKind::Dir {
            return Err(Target::StateFile(k));
        }
        k = k + 1;
    }
    assert forall|t: Target| !obstructs(*snapshot, t) by {
        if let Target::StateFile(i) = t {
            if i < 5 {
                assert(snapshot.state_files@[i as int] != EntryKind::Dir);
            }
        }
    }
    let ghost base = ops@;
    if snapshot.role_dir == EntryKind::Missing {
        ops.push(FsOp::CreateDir(Target::RoleDir));
    }
    let ghost with_dir = ops@;
    if snapshot.artifacts == EntryKind::Missing {
        ops.push(FsOp::CreateDir(Target::Artifacts));
    }
    proof {
        assert forall|d: RoleDisk| #[trigger] snapshot.observes(d) implies run(d, ops@) == Some(
            created_upto(d, 0),
        ) by {
            assert(kind_at(*snapshot, Target::RoleDir) == kind_of(node_at(d, Target::RoleDir)));
            assert(kind_at(*snapshot, Target::Artifacts) == kind_of(node_at(d, Target::Artifacts)));
            assert(run(d, base) == Some(with_gitignore(d)));
            let g = with_gitignore(d);
            let g2 = if snapshot.role_dir == EntryKind::Missing {
                with_node(g, Target::RoleDir, Node::Dir)
            } else {
                g
            };
            if snapshot.role_dir == EntryKind::Missing {
                lemma_run_push(d, base, with_dir.last());
                assert(with_dir =~= base.push(with_dir.last()));
            } else {
                assert(with_dir =~= base);
            }
            assert(run(d, with_dir) == Some(g2));
            if snapshot.artifacts == EntryKind::Missing {
                lemma_run_push(d, with_dir, ops@.last());
                assert(ops@ =~= with_dir.push(ops@.last()));
            } else {
                assert(ops@ =~= with_dir);
            }
            assert(d.state_files =~= Seq::new(
                d.state_files.len(),
                |j: int|
                    if j < 0 {
                        filled(d.state_files[j])
                    } else {
                        d.state_files[j]
                    },
            ));
        }
    }
    let mut i: usize = 0;
    while i < STATE_FILE_COUNT
        invariant
            i <= 5,
            forall|t: Target| !obstructs(*snapshot, t),
            forall|d: RoleDisk| #[trigger]
                snapshot.observes(d) ==> run(d, ops@) == Some(created_upto(d, i as int)),
        decreases 5 - i,
    {
        let ghost prev = ops@;
        if snapshot.state_files[i] == EntryKind::Missing {
            ops.push(FsOp::WriteFile(Target::StateFile(i), String::new()));
        }
        proof {
            assert forall|d: RoleDisk| #[trigger] snapshot.observes(d) implies run(d, ops@) == Some(
                created_upto(d, i + 1),
            ) by {
                assert(kind_at(*snapshot, Target::StateFile(i)) == kind_of(
                    node_at(d, Target::StateFile(i)),
                ));
                assert(!obstructs(*snapshot, Target::StateFile(i)));
                let before = created_upto(d, i as int);
                if snapshot.state_files@[i as int] == EntryKind::Missing {
                    lemma_run_push(d, prev, ops@.last());
                    assert(ops@ =~= prev.push(ops@.last()));
                    assert(op_ok(before, ops@.last()));
                    assert(apply_op(before, ops@.last()).state_files =~= created_upto(
                        d,
                        i + 1,
                    ).state_files);
                } else {
                    assert(ops@ =~= prev);
                    assert(before.state_files =~= created_upto(d, i + 1).state_files);
                }
            }
        }
        i = i + 1;
    }
    Ok(ops)
}

/// All five state files are files and `artifacts` is a directory.
pub open spec fn has_layout(s: RoleSnapshot) -> bool {
    &&& forall|i: int| 0 <= i < 5 ==> #[trigger] s.state_files@[i] == EntryKind::File
    &&& s.artifacts == EntryKind::Dir
}

/// The model's counterpart of `has_layout`.
pub open spec fn disk_has_layout(d: RoleDisk) -> bool {
    &&& forall|i: int| 0 <= i < 5 ==> #[trigger] d.state_files[i] is File
    &&& d.artifacts is Dir
}

pub fn has_role_state_layout(snapshot: &RoleSnapshot) -> (r: bool)
    ensures
        r == has_layout(*snapshot),
{
    let mut i: usize = 0;
    while i < STATE_FILE_COUNT
        invariant
            i <= 5,
            forall|j: int| 0 <= j < i ==> #[trigger] snapshot.state_files@[j] == EntryKind::File,
        decreases 5 - i,
    {
        if snapshot.state_files[i] != EntryKind::File {
            return false;
        }
        i = i + 1;
    }
    snapshot.artifacts == EntryKind::Dir
}

/// Whether the role's state directory is present.
pub fn role_state_exists(snapshot: &RoleSnapshot) -> (r: bool)
    ensures
        r == (snapshot.role_dir == EntryKind::Dir),
{
    snapshot.role_dir == EntryKind::Dir
}

/// Whether the role is configured: all five state files and `artifacts`
/// are present.
pub fn role_state_is_scaffolded(snapshot: &RoleSnapshot) -> (r: bool)
    ensures
        r == has_layout(*snapshot),
{
    has_role_state_layout(snapshot)
}

/// Whether `t` stands in the way of clearing a role's history.
pub open spec fn obstructs_clearing(s: RoleSnapshot, t: Target) -> bool {
    match t {
        Target::RoleDir => s.role_dir != EntryKind::Dir,
        Target::StateFile(i) => i < 5 && s.state_files@[i as int] == EntryKind::Dir,
        Target::RuntimePrompt => s.runtime_prompt == EntryKind::Dir,
        _ => false,
    }
}

/// `d` with the first `count` state files emptied.
pub open spec fn emptied_upto(d: RoleDisk, count: int) -> RoleDisk {
    RoleDisk {
        state_files: Seq::new(
            d.state_files.len(),
            |j: int|
                if j < count {
                    Node::File(Seq::empty())
                } else {
                    d.state_files[j]
                },
        ),
        ..d
    }
}

/// `d` after its history is cleared: each state file empty, the runtime
/// prompt gone, `artifacts` emptied where it is a directory; the prompt and
/// everything else untouched.
pub open spec fn cleared(d: RoleDisk) -> RoleDisk {
    RoleDisk {
        runtime_prompt: Node::Missing,
        artifact_entries: if d.artifacts is Dir {
            Set::empty()
        } else {
            d.artifact_entries
        },
        ..emptied_upto(d, 5)
    }
}

/// Plans the clearing of a role's history: each state file truncated, the
/// runtime prompt removed if present, the contents of `artifacts` removed.
pub fn clear_role_history(snapshot: &RoleSnapshot) -> (r: Result<Vec<FsOp>, Target>)
    ensures
        match r {
            Err(t) => obstructs_clearing(*snapshot, t),
            Ok(ops) => {
                &&& forall|t: Target| !obstructs_clearing(*snapshot, t)
                &&& forall|d: RoleDisk| #[trigger]
                    snapshot.observes(d) ==> run(d, ops@) == Some(cleared(d))
            },
        },
{
    if snapshot.role_dir != EntryKind::Dir {
        return Err(Target::RoleDir);
    }
    if snapshot.runtime_prompt == EntryKind::Dir {
        return Err(Target::RuntimePrompt);
    }
    let mut k: usize = 0;
    while k < STATE_FILE_COUNT
        invariant
            k <= 5,
            forall|j: int| 0 <= j < k ==> snapshot.state_files@[j] != EntryKind::Dir,
        decreases 5 - k,
    {
        if snapshot.state_files[k] == EntryKind::Dir {
            return Err(Target::StateFile(k));
        }
        k = k + 1;
    }
    assert forall|t: Target| !obstructs_clearing(*snapshot, t) by {
        if let Target::StateFile(i) = t {
            if i < 5 {
                assert(snapshot.state_files@[i as int] != EntryKind::Dir);
            }
        }
    }
    let mut ops: Vec<FsOp> = Vec::new();
    proof {
        assert forall|d: RoleDisk| #[trigger] snapshot.observes(d) implies run(d, ops@) == Some(
            emptied_upto(d, 0),
        ) by {
            assert(d.state_files =~= emptied_upto(d, 0).state_files);
        }
    }
    let mut i: usize = 0;
    while i < STATE_FILE_COUNT
        invariant
            i <= 5,
            snapshot.role_dir == EntryKind::Dir,
            snapshot.runtime_prompt != EntryKind::Dir,
            forall|t: Target| !obstructs_clearing(*snapshot, t),
            forall|d: RoleDisk| #[trigger]
                snapshot.observes(d) ==> run(d, ops@) == Some(emptied_upto(d, i as int)),
        decreases 5 - i,
    {
        let ghost prev = ops@;
        ops.push(FsOp::WriteFile(Target::StateFile(i), String::new()));
        proof {
            assert forall|d: RoleDisk| #[trigger] snapshot.observes(d) implies run(d, ops@) == Some(
                emptied_upto(d, i + 1),
            ) by {
                assert(kind_at(*snapshot, Target::StateFile(i)) == kind_of(
                    node_at(d, Target::StateFile(i)),
                ));
                assert(kind_at(*snapshot, Target::RoleDir) == kind_of(node_at(d, Target::RoleDir)));
                assert(!obstructs_clearing(*snapshot, Target::StateFile(i)));
                lemma_run_push(d, prev, ops@.last());
                assert(ops@ =~= prev.push(ops@.last()));
                assert(apply_op(emptied_upto(d, i as int), ops@.last()).state_files =~= emptied_upto(
                    d,
                    i + 1,
                ).state_files);
            }
        }
        i = i + 1;
    }
    let ghost files_done = ops@;
    if snapshot.runtime_prompt == EntryKind::File {
        ops.push(FsOp::RemoveFile(Target::RuntimePrompt));
    }
    let ghost runtime_done = ops@;
    if snapshot.artifacts == EntryKind::Dir {
        ops.push(FsOp::EmptyDir(Target::Artifacts));
    }
    proof {
        assert forall|d: RoleDisk| #[trigger] snapshot.observes(d) implies run(d, ops@) == Some(
            cleared(d),
        ) by {
            assert(kind_at(*snapshot, Target::RuntimePrompt) == kind_of(
                node_at(d, Target::RuntimePrompt),
            ));
            assert(kind_at(*snapshot, Target::Artifacts) == kind_of(node_at(d, Target::Artifacts)));
            let e = emptied_upto(d, 5);
            let e2 = RoleDisk { runtime_prompt: Node::Missing, ..e };
            if snapshot.runtime_prompt == EntryKind::File {
                lemma_run_push(d, files_done, runtime_done.last());
                assert(runtime_done =~= files_done.push(runtime_done.last()));
            } else {
                assert(runtime_done =~= files_done);
                assert(e2 == e);
            }
            assert(run(d, runtime_done) == Some(e2));
            if snapshot.artifacts == EntryKind::Dir {
                lemma_run_push(d, runtime_done, ops@.last());
                assert(ops@ =~= runtime_done.push(ops@.last()));
            } else {
                assert(ops@ =~= runtime_done);
            }
        }
    }
    Ok(ops)
}

/// Plans the staging of a role's runtime prompt: its text written fresh.
pub fn write_runtime_prompt(snapshot: &RoleSnapshot, prompt: &str) -> (r: Result<
    Vec<FsOp>,
    Target,
>)
    ensures
        match r {
            Err(t) => (t == Target::RoleDir && snapshot.role_dir != EntryKind::Dir) || (t
                == Target::RuntimePrompt && snapshot.runtime_prompt == EntryKind::Dir),
            Ok(ops) => {
                &&& snapshot.role_dir == EntryKind::Dir
                &&& snapshot.runtime_prompt != EntryKind::Dir
                &&& forall|d: RoleDisk| #[trigger]
                    snapshot.observes(d) ==> run(d, ops@) == Some(
                        with_node(d, Target::RuntimePrompt, Node::File(prompt@)),
                    )
            },
        },
{
    if snapshot.role_dir != EntryKind::Dir {
        return Err(Target::RoleDir);
    }
    if snapshot.runtime_prompt == EntryKind::Dir {
        return Err(Target::RuntimePrompt);
    }
    let mut ops: Vec<FsOp> = Vec::new();
    ops.push(FsOp::WriteFile(Target::RuntimePrompt, String::from_str(prompt)));
    proof {
        assert forall|d: RoleDisk| #[trigger] snapshot.observes(d) implies run(d, ops@) == Some(
            with_node(d, Target::RuntimePrompt, Node::File(prompt@)),
        ) by {
            assert(kind_at(*snapshot, Target::RuntimePrompt) == kind_of(
                node_at(d, Target::RuntimePrompt),
            ));
            assert(kind_at(*snapshot, Target::RoleDir) == kind_of(node_at(d, Target::RoleDir)));
            lemma_run_push(d, Seq::empty(), ops@.last());
            assert(ops@ =~= Seq::<FsOp>::empty().push(ops@.last()));
        }
    }
    Ok(ops)
}

/// Lexicographic order of texts by character code, which is the order of
/// their UTF-8 bytes.
pub open spec fn text_le(a: Seq<char>, b: Seq<char>) -> bool
    decreases a.len(),
{
    if a.len() == 0 {
        true
    } else if b.len() == 0 {
        false
    } else if a[0] != b[0] {
        a[0] < b[0]
    } else {
        text_le(a.drop_first(), b.drop_first())
    }
}

proof fn lemma_text_le_total(a: Seq<char>, b: Seq<char>)
    ensures
        text_le(a, b) || text_le(b, a),
    decreases a.len(),
{
    if a.len() > 0 && b.len() > 0 && a[0] == b[0] {
        lemma_text_le_total(a.drop_first(), b.drop_first());
    }
}

proof fn lemma_text_le_trans(a: Seq<char>, b: Seq<char>, c: Seq<char>)
    requires
        text_le(a, b),
        text_le(b, c),
    ensures
        text_le(a, c),
    decreases a.len(),
{
    if a.len() > 0 && b.len() > 0 && c.len() > 0 && a[0] == b[0] && b[0] == c[0] {
        lemma_text_le_trans(a.drop_first(), b.drop_first(), c.drop_first());
    }
}

fn text_le_exec(a: &str, b: &str) -> (r: bool)
    ensures
        r == text_le(a@, b@),
{
    let x = chars_of(a);
    let y = chars_of(b);
    let mut i: usize = 0;
    assert(a@.skip(0) =~= a@ && b@.skip(0) =~= b@);
    while i < x.len() && i < y.len() && x[i] == y[i]
        invariant
            i <= x@.len(),
            i <= y@.len(),
            x@ == a@,
            y@ == b@,
            text_le(a@, b@) == text_le(a@.skip(i as int), b@.skip(i as int)),
        decreases x@.len() - i,
    {
        assert(a@.skip(i as int).drop_first() =~= a@.skip(i + 1));
        assert(b@.skip(i as int).drop_first() =~= b@.skip(i + 1));
        i = i + 1;
    }
    if i == x.len() {
        true
    } else if i == y.len() {
        false
    } else {
        x[i] < y[i]
    }
}

/// A directory found directly under the state root, with the snapshot of
/// the role state it would hold.
#[derive(Debug)]
pub struct RoleEntry {
    pub name: String,
    pub snapshot: RoleSnapshot,
}

/// A configured role and the path of its prompt.
#[derive(Clone, Debug, PartialEq, Eq)]
pub struct ConfiguredRole {
    pub name: String,
    pub prompt_path: String,
}

/// A configured role: its full layout is present.
pub open spec fn is_configured(s: RoleSnapshot) -> bool {
    has_layout(s)
}

/// The names of the entries that hold a configured role, in listing order.
pub open spec fn configured_names(entries: Seq<RoleEntry>) -> Seq<Seq<char>>
    decreases entries.len(),
{
    if entries.len() == 0 {
        Seq::empty()
    } else if is_configured(entries.last().snapshot) {
        configured_names(entries.drop_last()).push(entries.last().name@)
    } else {
        configured_names(entries.drop_last())
    }
}

pub open spec fn names_sorted(names: Seq<Seq<char>>) -> bool {
    forall|i: int, j: int| 0 <= i < j < names.len() ==> text_le(#[trigger] names[i], #[trigger] names[j])
}

pub open spec fn string_views(v: Seq<String>) -> Seq<Seq<char>> {
    v.map_values(|s: String| s@)
}

pub open spec fn role_names(v: Seq<ConfiguredRole>) -> Seq<Seq<char>> {
    v.map_values(|c: ConfiguredRole| c.name@)
}

/// The configured roles among the directories under the state root, sorted
/// by name.
pub fn discover_configured_roles(project_root: &str, entries: &Vec<RoleEntry>) -> (r: Vec<
    ConfiguredRole,
>)
    ensures
        role_names(r@).to_multiset() == configured_names(entries@).to_multiset(),
        names_sorted(role_names(r@)),
        forall|i: int|
            0 <= i < r@.len() ==> (#[trigger] r@[i]).prompt_path@ == target_path_spec(
                project_root@,
                r@[i].name@,
                Target::Prompt,
            ),
{
    broadcast use vstd::seq_lib::group_to_multiset_ensures;

    let mut names: Vec<String> = Vec::new();
    let mut i: usize = 0;
    while i < entries.len()
        invariant
            i <= entries@.len(),
            string_views(names@).to_multiset() == configured_names(entries@.take(i as int)).to_multiset(),
            names_sorted(string_views(names@)),
        decreases entries@.len() - i,
    {
        assert(entries@.take(i + 1).drop_last() =~= entries@.take(i as int));
        if role_state_is_scaffolded(&entries[i].snapshot) {
            let name = &entries[i].name;
            let ghost old_views = string_views(names@);
            let mut p: usize = 0;
            while p < names.len() && text_le_exec(names[p].as_str(), name.as_str())
                invariant
                    p <= names@.len(),
                    old_views == string_views(names@),
                    forall|k: int| 0 <= k < p ==> text_le(#[trigger] old_views[k], name@),
                decreases names@.len() - p,
            {
                p = p + 1;
            }
            proof {
                if p < names@.len() {
                    lemma_text_le_total(old_views[p as int], name@);
                    assert forall|k: int| p <= k < old_views.len() implies text_le(
                        name@,
                        #[trigger] old_views[k],
                    ) by {
                        if k > p {
                            lemma_text_le_trans(name@, old_views[p as int], old_views[k]);
                        }
                    }
                }
            }
            names.insert(p, name.clone());
            proof {
                let nv = string_views(names@);
                assert(nv =~= old_views.insert(p as int, name@));
                vstd::seq_lib::to_multiset_insert(old_views, p as int, name@);
                vstd::seq_lib::to_multiset_build(configured_names(entries@.take(i as int)), name@);
                assert forall|a: int, b: int| 0 <= a < b < nv.len() implies text_le(
                    #[trigger] nv[a],
                    #[trigger] nv[b],
                ) by {
                    if a < p && b > p {
                        lemma_text_le_trans(nv[a], name@, nv[b]);
                    }
                }
            }
        }
        i = i + 1;
    }
    assert(entries@.take(entries@.len() as int) =~= entries@);
    let mut roles: Vec<ConfiguredRole> = Vec::new();
    let mut j: usize = 0;
    while j < names.len()
        invariant
            j <= names@.len(),
            roles@.len() == j,
            forall|k: int| 0 <= k < j ==> (#[trigger] roles@[k]).name@ == names@[k]@,
            forall|k: int|
                0 <= k < j ==> (#[trigger] roles@[k]).prompt_path@ == target_path_spec(
                    project_root@,
                    roles@[k].name@,
                    Target::Prompt,
                ),
        decreases names@.len() - j,
    {
        let prompt_path = role_prompt_path(project_root, names[j].as_str());
        roles.push(ConfiguredRole { name: names[j].clone(), prompt_path });
        j = j + 1;
    }
    assert(role_names(roles@) =~= string_views(names@));
    roles
}

/// Creating a role's state twice leaves exactly what the first creation
/// left, so the second creation succeeds and changes no byte. The first
/// keeps the text of every state file that was present, of the prompt and of
/// the runtime prompt, keeps what `artifacts` held, and completes the layout.
pub proof fn lemma_create_is_idempotent(d: RoleDisk, first: RoleSnapshot, second: RoleSnapshot)
    requires
        first.observes(d),
        forall|t: Target| !obstructs(first, t),
        second.observes(created(d)),
    ensures
        forall|t: Target| !obstructs(second, t),
        created(created(d)) == created(d),
        forall|i: int|
            0 <= i < 5 && d.state_files[i] is File ==> created(d).state_files[i]
                == d.state_files[i],
        created(d).prompt == d.prompt,
        created(d).runtime_prompt == d.runtime_prompt,
        d.artifacts is Dir ==> created(d).artifact_entries == d.artifact_entries,
        disk_has_layout(created(d)),
{
    let c = created(d);
    assert forall|t: Target| !obstructs(second, t) by {
        if valid_target(t) {
            assert(kind_at(second, t) == kind_of(node_at(c, t)));
        }
        if let Target::StateFile(i) = t {
            if i < 5 {
                assert(kind_at(first, t) == kind_of(node_at(d, t)));
                assert(!obstructs(first, t));
            }
        }
    }
    assert(created(c).state_files =~= c.state_files);
    assert forall|i: int| 0 <= i < 5 implies #[trigger] c.state_files[i] is File by {
        let t = Target::StateFile(i as usize);
        assert(kind_at(first, t) == kind_of(node_at(d, t)));
        assert(!obstructs(first, t));
    }
}

/// A role counts as scaffolded right after its state is created; before,
/// only where its full layout was already present.
pub proof fn lemma_scaffolded_after_create(d: RoleDisk, before: RoleSnapshot, after: RoleSnapshot)
    requires
        before.observes(d),
        forall|t: Target| !obstructs(before, t),
        after.observes(created(d)),
    ensures
        is_configured(after),
        has_layout(before) <==> disk_has_layout(d),
{
    let c = created(d);
    assert(kind_at(after, Target::RoleDir) == kind_of(node_at(c, Target::RoleDir)));
    assert(kind_at(after, Target::Artifacts) == kind_of(node_at(c, Target::Artifacts)));
    assert(kind_at(before, Target::Artifacts) == kind_of(node_at(d, Target::Artifacts)));
    assert forall|i: int| 0 <= i < 5 implies #[trigger] after.state_files@[i] == EntryKind::File by {
        let t = Target::StateFile(i as usize);
        assert(kind_at(after, t) == kind_of(node_at(c, t)));
        assert(kind_at(before, t) == kind_of(node_at(d, t)));
        assert(!obstructs(before, t));
    }
    assert forall|i: int| 0 <= i < 5 implies (#[trigger] before.state_files@[i] == EntryKind::File
        <==> d.state_files[i] is File) by {
        let t = Target::StateFile(i as usize);
        assert(kind_at(before, t) == kind_of(node_at(d, t)));
    }
    if has_layout(before) {
        assert forall|i: int| 0 <= i < 5 implies #[trigger] d.state_files[i] is File by {
            assert(before.state_files@[i] == EntryKind::File);
        }
    }
    if disk_has_layout(d) {
        assert forall|i: int| 0 <= i < 5 implies #[trigger] before.state_files@[i]
            == EntryKind::File by {
            assert(d.state_files[i] is File);
        }
    }
}

/// Clearing the history of a scaffolded role leaves each state file empty,
/// `artifacts` present and empty, the prompt as it was, and no runtime
/// prompt.
pub proof fn lemma_clear_history_outcome(d: RoleDisk)
    requires
        d.state_files.len() == 5,
        disk_has_layout(d),
    ensures
        forall|i: int| 0 <= i < 5 ==> #[trigger] cleared(d).state_files[i] == Node::File(Seq::empty()),
        cleared(d).artifacts is Dir,
        cleared(d).artifact_entries.is_empty(),
        cleared(d).prompt == d.prompt,
        cleared(d).runtime_prompt is Missing,
{
}

} // verus!
