//! The role commands `init`, `reset-prompt` and `clear-history`, and the
//! prompt text handed to engines.
use vstd::prelude::*;
use vstd::string::StringExecFns;

use crate::role_name::{invalid_role_name_message, valid_role_name, validate_role_name};
use crate::role_state::{
    clear_role_history, cleared, create_role_state, created, is_configured, obstructs,
    obstructs_clearing, role_state_is_scaffolded, run, target_path, target_path_spec, with_node,
    EntryKind, FsOp, Node, RoleDisk, RoleSnapshot, Target,
};

verus! {

/// The instructional comment that a fresh prompt carries for the operator.
pub open spec fn operator_placeholder() -> Seq<char> {
    "<!-- TODO: Replace with role-specific instructions and expected operator input. -->"@
}

/// The default prompt document of a role.
pub open spec fn prompt_template(role_name: Seq<char>, seed: Seq<char>) -> Seq<char> {
    "# "@ + role_name + "\n\n"@ + operator_placeholder() + "\n\n## Default Prompt Seed\n\n"@ + seed
}

/// Renders the default prompt document of a role from the prompt seed.
pub fn role_prompt_template(role_name: &str, default_prompt_seed: &str) -> (r: String)
    ensures
        r@ == prompt_template(role_name@, default_prompt_seed@),
{
    let mut out = String::from_str("# ");
    out.append(role_name);
    out.append("\n\n");
    out.append("<!-- TODO: Replace with role-specific instructions and expected operator input. -->");
    out.append("\n\n## Default Prompt Seed\n\n");
    out.append(default_prompt_seed);
    out
}

/// The prompt handed to an engine: the staged prompt, followed by the
/// operator's input where there is any.
pub open spec fn launch_prompt(base: Seq<char>, operator_input: Option<Seq<char>>) -> Seq<char> {
    match operator_input {
        Some(input) => base + "\n\nUser input:\n"@ + input,
        None => base,
    }
}

pub open spec fn str_view(v: Option<&str>) -> Option<Seq<char>> {
    match v {
        Some(s) => Some(s@),
        None => None,
    }
}

pub fn build_launch_prompt(base: &str, operator_input: Option<&str>) -> (r: String)
    ensures
        r@ == launch_prompt(base@, str_view(operator_input)),
{
    let mut out = String::from_str(base);
    match operator_input {
        Some(input) => {
            out.append("\n\nUser input:\n");
            out.append(input);
        },
        None => {},
    }
    out
}

/// Words joined by single spaces.
pub open spec fn joined_words(words: Seq<Seq<char>>) -> Seq<char>
    decreases words.len(),
{
    if words.len() == 0 {
        Seq::empty()
    } else if words.len() == 1 {
        words[0]
    } else {
        joined_words(words.drop_last()) + " "@ + words.last()
    }
}

pub open spec fn word_views(words: Seq<String>) -> Seq<Seq<char>> {
    words.map_values(|w: String| w@)
}

/// Joins command-line words with single spaces.
pub fn join_words(words: &Vec<String>) -> (r: String)
    ensures
        r@ == joined_words(word_views(words@)),
{
    let mut out = String::new();
    let mut i: usize = 0;
    while i < words.len()
        invariant
            i <= words@.len(),
            out@ == joined_words(word_views(words@.take(i as int))),
        decreases words@.len() - i,
    {
        assert(word_views(words@.take(i + 1)).drop_last() =~= word_views(words@.take(i as int)));
        if i > 0 {
            out.append(" ");
        }
        out.append(words[i].as_str());
        i = i + 1;
    }
    assert(words@.take(words@.len() as int) =~= words@);
    out
}

/// The operator's input: the words joined, or nothing when there are none.
pub fn parse_operator_input(args: &Vec<String>) -> (r: Option<String>)
    ensures
        match r {
            Some(s) => args@.len() > 0 && s@ == joined_words(word_views(args@)),
            None => args@.len() == 0,
        },
{
    if args.len() == 0 {
        None
    } else {
        Some(join_words(args))
    }
}

/// What `init` found.
#[derive(Clone, Copy, Debug, PartialEq, Eq, Structural)]
pub enum InitOutcome {
    Initialized,
    AlreadyExists,
}

/// Why a place cannot hold what the role's layout needs there.
pub open spec fn obstruction_message(project_root: Seq<char>, role_name: Seq<char>, t: Target) -> Seq<
    char,
> {
    let path = target_path_spec(project_root, role_name, t);
    match t {
        Target::Gitignore | Target::Prompt | Target::StateFile(_) | Target::RuntimePrompt => "expected file path, found non-file: "@ + path,
        _ => "expected directory path, found non-directory: "@ + path,
    }
}

fn obstruction_error(project_root: &str, role_name: &str, t: Target) -> (r: String)
    ensures
        r@ == obstruction_message(project_root@, role_name@, t),
{
    let path = target_path(project_root, role_name, t);
    let mut out = match t {
        Target::Gitignore | Target::Prompt | Target::StateFile(_) | Target::RuntimePrompt => String::from_str("expected file path, found non-file: "),
        _ => String::from_str("expected directory path, found non-directory: "),
    };
    out.append(path.as_str());
    out
}

pub open spec fn init_failure_message(project_root: Seq<char>, role_name: Seq<char>, t: Target) -> Seq<
    char,
> {
    "failed to initialize role "@ + role_name + ": "@ + obstruction_message(project_root, role_name, t)
}

/// `d` after `init`: the role's state created, and its prompt rendered
/// from `text` where it was missing.
pub open spec fn initialized(d: RoleDisk, text: Seq<char>) -> RoleDisk {
    RoleDisk {
        prompt: if d.prompt is File {
            d.prompt
        } else {
            Node::File(text)
        },
        ..created(d)
    }
}

/// Plans `init` for a role: the state root's `.gitignore` repaired, the
/// role's state created where missing, and its prompt rendered from the
/// seed where missing. Nothing present is overwritten but the `.gitignore`.
pub fn initialize_role(
    project_root: &str,
    role_name: &str,
    snapshot: &RoleSnapshot,
    default_prompt_seed: &str,
) -> (r: Result<(InitOutcome, Vec<FsOp>), String>)
    ensures
        !valid_role_name(role_name@) ==> (r matches Err(m) && m@ == invalid_role_name_message(
            role_name@,
        )),
        valid_role_name(role_name@) ==> match r {
            Err(m) => exists|t: Target|
                (obstructs(*snapshot, t) || (t == Target::Prompt && snapshot.prompt
                    == EntryKind::Dir)) && m@ == #[trigger] init_failure_message(
                    project_root@,
                    role_name@,
                    t,
                ),
            Ok((outcome, ops)) => {
                &&& forall|t: Target| !obstructs(*snapshot, t)
                &&& snapshot.prompt != EntryKind::Dir
                &&& (outcome == InitOutcome::AlreadyExists <==> (snapshot.prompt == EntryKind::File
                    && is_configured(*snapshot)))
                &&& forall|d: RoleDisk| #[trigger]
                    snapshot.observes(d) ==> run(d, ops@) == Some(
                        initialized(d, prompt_template(role_name@, default_prompt_seed@)),
                    )
            },
        },
{
    match validate_role_name(role_name) {
        Ok(()) => {},
        Err(m) => return Err(m),
    }
    let already = snapshot.prompt == EntryKind::File && role_state_is_scaffolded(snapshot);
    let mut ops = match create_role_state(snapshot) {
        Ok(ops) => ops,
        Err(t) => {
            let mut m = String::from_str("failed to initialize role ");
            m.append(role_name);
            m.append(": ");
            m.append(obstruction_error(project_root, role_name, t).as_str());
            assert(m@ == init_failure_message(project_root@, role_name@, t));
            return Err(m);
        },
    };
    if snapshot.prompt == EntryKind::Dir {
        let mut m = String::from_str("failed to initialize role ");
        m.append(role_name);
        m.append(": ");
        m.append(obstruction_error(project_root, role_name, Target::Prompt).as_str());
        assert(m@ == init_failure_message(project_root@, role_name@, Target::Prompt));
        return Err(m);
    }
    let ghost base = ops@;
    if snapshot.prompt == EntryKind::Missing {
        ops.push(FsOp::WriteFile(Target::Prompt, role_prompt_template(role_name, default_prompt_seed)));
    }
    proof {
        assert forall|d: RoleDisk| #[trigger] snapshot.observes(d) implies run(d, ops@) == Some(
            initialized(d, prompt_template(role_name@, default_prompt_seed@)),
        ) by {
            assert(crate::role_state::kind_at(*snapshot, Target::Prompt) == crate::role_state::kind_of(
                crate::role_state::node_at(d, Target::Prompt),
            ));
            assert(run(d, base) == Some(created(d)));
            if snapshot.prompt == EntryKind::Missing {
                crate::role_state::lemma_run_push(d, base, ops@.last());
                assert(ops@ =~= base.push(ops@.last()));
            } else {
                assert(ops@ =~= base);
            }
        }
    }
    let outcome = if already {
        InitOutcome::AlreadyExists
    } else {
        InitOutcome::Initialized
    };
    Ok((outcome, ops))
}

pub open spec fn not_initialized_message(role_name: Seq<char>) -> Seq<char> {
    "Role '"@ + role_name + "' is not initialized."@
}

fn not_initialized_error(role_name: &str) -> (r: String)
    ensures
        r@ == not_initialized_message(role_name@),
{
    let mut m = String::from_str("Role '");
    m.append(role_name);
    m.append("' is not initialized.");
    m
}

pub open spec fn reset_failure_message(project_root: Seq<char>, role_name: Seq<char>, t: Target) -> Seq<
    char,
> {
    "failed to write prompt for role "@ + role_name + ": "@ + obstruction_message(
        project_root,
        role_name,
        t,
    )
}

/// Whether `t` stands in the way of writing the role's prompt.
pub open spec fn obstructs_prompt(s: RoleSnapshot, t: Target) -> bool {
    (t == Target::RoleDir && s.role_dir != EntryKind::Dir) || (t == Target::Prompt && s.prompt
        == EntryKind::Dir)
}

/// Plans `reset-prompt`: the role's prompt overwritten with the default
/// template; nothing else is touched.
pub fn reset_prompt(
    project_root: &str,
    role_name: &str,
    snapshot: &RoleSnapshot,
    default_prompt_seed: &str,
) -> (r: Result<Vec<FsOp>, String>)
    ensures
        !valid_role_name(role_name@) ==> (r matches Err(m) && m@ == invalid_role_name_message(
            role_name@,
        )),
        valid_role_name(role_name@) && !is_configured(*snapshot) ==> (r matches Err(m) && m@
            == not_initialized_message(role_name@)),
        valid_role_name(role_name@) && is_configured(*snapshot) ==> match r {
            Err(m) => exists|t: Target|
                obstructs_prompt(*snapshot, t) && m@ == #[trigger] reset_failure_message(
                    project_root@,
                    role_name@,
                    t,
                ),
            Ok(ops) => forall|d: RoleDisk| #[trigger]
                snapshot.observes(d) ==> run(d, ops@) == Some(
                    with_node(
                        d,
                        Target::Prompt,
                        Node::File(prompt_template(role_name@, default_prompt_seed@)),
                    ),
                ),
        },
{
    match validate_role_name(role_name) {
        Ok(()) => {},
        Err(m) => return Err(m),
    }
    if !role_state_is_scaffolded(snapshot) {
        return Err(not_initialized_error(role_name));
    }
    let blocked = if snapshot.role_dir != EntryKind::Dir {
        Some(Target::RoleDir)
    } else if snapshot.prompt == EntryKind::Dir {
        Some(Target::Prompt)
    } else {
        None
    };
    if let Some(t) = blocked {
        let mut m = String::from_str("failed to write prompt for role ");
        m.append(role_name);
        m.append(": ");
        m.append(obstruction_error(project_root, role_name, t).as_str());
        assert(m@ == reset_failure_message(project_root@, role_name@, t));
        return Err(m);
    }
    let mut ops: Vec<FsOp> = Vec::new();
    ops.push(FsOp::WriteFile(Target::Prompt, role_prompt_template(role_name, default_prompt_seed)));
    proof {
        assert forall|d: RoleDisk| #[trigger] snapshot.observes(d) implies run(d, ops@) == Some(
            with_node(
                d,
                Target::Prompt,
                Node::File(prompt_template(role_name@, default_prompt_seed@)),
            ),
        ) by {
            assert(crate::role_state::kind_at(*snapshot, Target::Prompt) == crate::role_state::kind_of(
                crate::role_state::node_at(d, Target::Prompt),
            ));
            assert(crate::role_state::kind_at(*snapshot, Target::RoleDir)
                == crate::role_state::kind_of(crate::role_state::node_at(d, Target::RoleDir)));
            crate::role_state::lemma_run_push(d, Seq::empty(), ops@.last());
            assert(ops@ =~= Seq::<FsOp>::empty().push(ops@.last()));
        }
    }
    Ok(ops)
}

pub open spec fn clear_failure_message(project_root: Seq<char>, role_name: Seq<char>, t: Target) -> Seq<
    char,
> {
    "failed to clear history for role "@ + role_name + ": "@ + obstruction_message(
        project_root,
        role_name,
        t,
    )
}

/// Plans `clear-history`: each state file emptied, the runtime prompt
/// removed, `artifacts` emptied; the prompt is kept.
pub fn clear_history(project_root: &str, role_name: &str, snapshot: &RoleSnapshot) -> (r: Result<
    Vec<FsOp>,
    String,
>)
    ensures
        !valid_role_name(role_name@) ==> (r matches Err(m) && m@ == invalid_role_name_message(
            role_name@,
        )),
        valid_role_name(role_name@) && !is_configured(*snapshot) ==> (r matches Err(m) && m@
            == not_initialized_message(role_name@)),
        valid_role_name(role_name@) && is_configured(*snapshot) ==> match r {
            Err(m) => exists|t: Target|
                obstructs_clearing(*snapshot, t) && m@ == #[trigger] clear_failure_message(
                    project_root@,
                    role_name@,
                    t,
                ),
            Ok(ops) => forall|d: RoleDisk| #[trigger]
                snapshot.observes(d) ==> run(d, ops@) == Some(cleared(d)),
        },
{
    match validate_role_name(role_name) {
        Ok(()) => {},
        Err(m) => return Err(m),
    }
    if !role_state_is_scaffolded(snapshot) {
        return Err(not_initialized_error(role_name));
    }
    match clear_role_history(snapshot) {
        Ok(ops) => Ok(ops),
        Err(t) => {
            let mut m = String::from_str("failed to clear history for role ");
            m.append(role_name);
            m.append(": ");
            m.append(obstruction_error(project_root, role_name, t).as_str());
            assert(m@ == clear_failure_message(project_root@, role_name@, t));
            Err(m)
        },
    }
}

} // verus!
