//! The decisions of a turn: which role it runs as, and what it reports once
//! the engine has run.
use vstd::prelude::*;
use vstd::string::StringExecFns;

use crate::exec_result::{envelope, format_exec_result_json, normalized, parse_exec_result, text_view, Engine};
use crate::role_name::{invalid_role_name_message, valid_role_name, validate_role_name};
use crate::role_state::{
    configured_names, discover_configured_roles, is_configured, names_sorted, role_names,
    role_state_is_scaffolded, ConfiguredRole, RoleEntry, RoleSnapshot,
};

verus! {

pub open spec fn role_not_found_message(role_name: Seq<char>) -> Seq<char> {
    "Role not found: "@ + role_name + ". Run: juliet init --project "@ + role_name
}

/// Checks a role named by the operator: the name must be valid and the
/// role configured.
pub fn check_explicit_role(role_name: &str, snapshot: &RoleSnapshot) -> (r: Result<(), String>)
    ensures
        !valid_role_name(role_name@) ==> (r matches Err(m) && m@ == invalid_role_name_message(
            role_name@,
        )),
        valid_role_name(role_name@) && !is_configured(*snapshot) ==> (r matches Err(m) && m@
            == role_not_found_message(role_name@)),
        valid_role_name(role_name@) && is_configured(*snapshot) ==> r is Ok,
{
    match validate_role_name(role_name) {
        Ok(()) => {},
        Err(m) => return Err(m),
    }
    if !role_state_is_scaffolded(snapshot) {
        let mut m = String::from_str("Role not found: ");
        m.append(role_name);
        m.append(". Run: juliet init --project ");
        m.append(role_name);
        return Err(m);
    }
    Ok(())
}

pub open spec fn no_roles_message() -> Seq<char> {
    "No roles configured. Run: juliet init --project <name>"@
}

/// Each name on a line of its own, each line introduced by a newline.
pub open spec fn listed_names(names: Seq<Seq<char>>) -> Seq<char>
    decreases names.len(),
{
    if names.len() == 0 {
        Seq::empty()
    } else {
        listed_names(names.drop_last()) + "\n"@ + names.last()
    }
}

pub open spec fn multiple_roles_message(names: Seq<Seq<char>>) -> Seq<char> {
    "Multiple roles found. Specify one with --project <name>:"@ + listed_names(names)
}

/// The role a turn without an explicit choice runs as: the only configured
/// role, or why there is none to pick.
pub open spec fn implicit_choice(names: Seq<Seq<char>>) -> Result<Seq<char>, Seq<char>> {
    if names.len() == 0 {
        Err(no_roles_message())
    } else if names.len() == 1 {
        Ok(names[0])
    } else {
        Err(multiple_roles_message(names))
    }
}

pub open spec fn result_view(r: Result<String, String>) -> Result<Seq<char>, Seq<char>> {
    match r {
        Ok(s) => Ok(s@),
        Err(e) => Err(e@),
    }
}

/// Picks the role of a turn from the discovered roles.
pub fn select_implicit_role(roles: &Vec<ConfiguredRole>) -> (r: Result<String, String>)
    ensures
        result_view(r) == implicit_choice(role_names(roles@)),
{
    if roles.len() == 0 {
        return Err(String::from_str("No roles configured. Run: juliet init --project <name>"));
    }
    if roles.len() == 1 {
        return Ok(roles[0].name.clone());
    }
    let mut m = String::from_str("Multiple roles found. Specify one with --project <name>:");
    let mut i: usize = 0;
    while i < roles.len()
        invariant
            i <= roles@.len(),
            m@ == "Multiple roles found. Specify one with --project <name>:"@ + listed_names(
                role_names(roles@.take(i as int)),
            ),
        decreases roles@.len() - i,
    {
        assert(role_names(roles@.take(i + 1)).drop_last() =~= role_names(roles@.take(i as int)));
        m.append("\n");
        m.append(roles[i].name.as_str());
        i = i + 1;
    }
    assert(roles@.take(roles@.len() as int) =~= roles@);
    Err(m)
}

/// Resolves the role of a turn without an explicit choice from the
/// directories under the state root: with no configured role it fails,
/// with one it picks it, with more it fails listing all their names sorted.
pub fn resolve_implicit_role(project_root: &str, entries: &Vec<RoleEntry>) -> (r: Result<
    String,
    String,
>)
    ensures
        exists|names: Seq<Seq<char>>|
            {
                &&& names_sorted(names)
                &&& names.to_multiset() == configured_names(entries@).to_multiset()
                &&& result_view(r) == #[trigger] implicit_choice(names)
            },
{
    let roles = discover_configured_roles(project_root, entries);
    let r = select_implicit_role(&roles);
    assert(result_view(r) == implicit_choice(role_names(roles@)));
    r
}

/// What the raw output of an engine that failed is forwarded as: its
/// standard error, or its standard output where that is empty.
pub open spec fn forwarded_text(stderr: Seq<char>, stdout: Seq<char>) -> Option<Seq<char>> {
    if stderr.len() > 0 {
        Some(stderr)
    } else if stdout.len() > 0 {
        Some(stdout)
    } else {
        None
    }
}

pub open spec fn parse_failure_message(engine_name: Seq<char>, reason: Seq<char>) -> Seq<char> {
    "failed to parse "@ + engine_name + " exec output: "@ + reason + "\n"@
}

/// What a finished engine process handed back.
#[derive(Debug)]
pub struct EngineOutput {
    pub status_code: i32,
    pub stdout: String,
    pub stderr: String,
}

/// What a turn emits and the status it ends with.
#[derive(Debug, PartialEq, Eq)]
pub struct TurnOutcome {
    /// Printed to standard output, followed by a newline.
    pub stdout_line: Option<String>,
    /// Written to standard error as it is.
    pub stderr_text: Option<String>,
    pub exit_code: i32,
}

/// Decides what an exec turn emits once its engine has run. A failed
/// engine's output is forwarded and its status kept, without parsing;
/// otherwise the output is normalized and reported under `engine_name`.
pub fn finish_exec_turn(
    engine: Engine,
    engine_name: &str,
    output: &EngineOutput,
    json_output: bool,
) -> (r: TurnOutcome)
    ensures
        output.status_code != 0 ==> {
            &&& r.exit_code == output.status_code
            &&& r.stdout_line is None
            &&& text_view(r.stderr_text) == forwarded_text(output.stderr@, output.stdout@)
        },
        output.status_code == 0 ==> match normalized(engine, engine_name@, output.stdout@) {
            Err(reason) => {
                &&& r.exit_code == 1
                &&& r.stdout_line is None
                &&& text_view(r.stderr_text) == Some(parse_failure_message(engine_name@, reason))
            },
            Ok((text, resume_id)) => {
                &&& r.exit_code == 0
                &&& r.stderr_text is None
                &&& text_view(r.stdout_line) == if json_output {
                    Some(envelope(engine_name@, text, resume_id))
                } else if text.len() > 0 {
                    Some(text)
                } else {
                    None
                }
            },
        },
{
    if output.status_code != 0 {
        let forwarded = if !output.stderr.as_str().is_empty() {
            Some(output.stderr.clone())
        } else if !output.stdout.as_str().is_empty() {
            Some(output.stdout.clone())
        } else {
            None
        };
        return TurnOutcome { stdout_line: None, stderr_text: forwarded, exit_code: output.status_code };
    }
    match parse_exec_result(engine, engine_name, output.stdout.as_str()) {
        Err(reason) => {
            let mut m = String::from_str("failed to parse ");
            m.append(engine_name);
            m.append(" exec output: ");
            m.append(reason.as_str());
            m.append("\n");
            TurnOutcome { stdout_line: None, stderr_text: Some(m), exit_code: 1 }
        },
        Ok(result) => {
            let line = if json_output {
                Some(format_exec_result_json(engine_name, &result))
            } else if !result.text.as_str().is_empty() {
                Some(result.text)
            } else {
                None
            };
            TurnOutcome { stdout_line: line, stderr_text: None, exit_code: 0 }
        },
    }
}

} // verus!
