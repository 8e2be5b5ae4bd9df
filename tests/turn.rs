use juliet::exec_result::Engine;
use juliet::turn::{finish_exec_turn, EngineOutput, TurnOutcome};

fn name_of(engine: Engine) -> String {
    format!("{engine:?}").to_lowercase()
}

fn finish(engine: Engine, output: &EngineOutput, json_output: bool) -> TurnOutcome {
    finish_exec_turn(engine, &name_of(engine), output, json_output)
}

fn output(status_code: i32, stdout: &str, stderr: &str) -> EngineOutput {
    EngineOutput { status_code, stdout: stdout.to_string(), stderr: stderr.to_string() }
}

#[test]
fn failed_engine_forwards_stderr_and_keeps_status() {
    let outcome = finish(Engine::Codex, &output(5, "{\"thread_id\":\"t\"}", "boom\n"), false);
    assert_eq!(
        outcome,
        TurnOutcome { stdout_line: None, stderr_text: Some("boom\n".to_string()), exit_code: 5 }
    );
}

#[test]
fn failed_engine_forwards_stdout_when_stderr_is_empty() {
    let outcome = finish(Engine::Claude, &output(7, "partial", ""), true);
    assert_eq!(
        outcome,
        TurnOutcome { stdout_line: None, stderr_text: Some("partial".to_string()), exit_code: 7 }
    );
    let silent = finish(Engine::Claude, &output(-1, "", ""), false);
    assert_eq!(silent, TurnOutcome { stdout_line: None, stderr_text: None, exit_code: -1 });
}

#[test]
fn successful_turn_prints_text() {
    let outcome = finish(
        Engine::Claude,
        &output(0, "{\"session_id\":\"s1\",\"result\":\"done\"}", ""),
        false,
    );
    assert_eq!(
        outcome,
        TurnOutcome { stdout_line: Some("done".to_string()), stderr_text: None, exit_code: 0 }
    );
}

#[test]
fn successful_turn_with_empty_text_stays_silent() {
    let outcome = finish(Engine::Codex, &output(0, "{\"thread_id\":\"t1\"}\n", ""), false);
    assert_eq!(outcome, TurnOutcome { stdout_line: None, stderr_text: None, exit_code: 0 });
}

#[test]
fn successful_turn_in_json_mode_prints_envelope() {
    let raw = "{\"thread_id\":\"codex-thread-id\"}\n{\"type\":\"item.completed\",\"item\":{\"text\":\"codex mock response\"}}\n";
    let outcome = finish(Engine::Codex, &output(0, raw, "noise"), true);
    assert_eq!(
        outcome,
        TurnOutcome {
            stdout_line: Some(
                "{\"text\":\"codex mock response\",\"resume_id\":\"codex-thread-id\",\"engine\":\"codex\"}"
                    .to_string()
            ),
            stderr_text: None,
            exit_code: 0,
        }
    );
}

#[test]
fn unparseable_output_fails_with_status_one() {
    let outcome = finish(Engine::Codex, &output(0, "plain text", ""), true);
    assert_eq!(
        outcome,
        TurnOutcome {
            stdout_line: None,
            stderr_text: Some(
                "failed to parse codex exec output: codex returned no parseable JSON output\n"
                    .to_string()
            ),
            exit_code: 1,
        }
    );
}
