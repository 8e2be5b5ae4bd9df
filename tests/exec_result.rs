use juliet::exec_result::{
    extract_text_candidate, format_exec_result_json, parse_exec_result, parse_json_values, Engine,
    ExecResult,
};
use juliet::json::Json;

/// The name an engine is invoked by: its variant name in lower case.
fn name_of(engine: Engine) -> String {
    format!("{engine:?}").to_lowercase()
}

fn parse(engine: Engine, raw: &str) -> Result<ExecResult, String> {
    parse_exec_result(engine, &name_of(engine), raw)
}

fn ok(text: &str, resume_id: &str) -> Result<ExecResult, String> {
    Ok(ExecResult { text: text.to_string(), resume_id: resume_id.to_string() })
}

#[test]
fn codex_result_takes_thread_id_and_completed_item_text() {
    let raw = "{\"thread_id\":\"t1\"}\n{\"type\":\"item.completed\",\"item\":{\"text\":\"done\"}}\n";
    assert_eq!(parse(Engine::Codex, raw), ok("done", "t1"));
}

#[test]
fn claude_result_takes_session_id_and_result() {
    let raw = "{\"session_id\":\"s1\",\"result\":\"done\"}";
    assert_eq!(parse(Engine::Claude, raw), ok("done", "s1"));
}

#[test]
fn output_without_json_fails_naming_the_engine() {
    assert_eq!(
        parse(Engine::Codex, "not json at all\nstill not\n"),
        Err("codex returned no parseable JSON output".to_string())
    );
    assert_eq!(
        parse(Engine::Claude, ""),
        Err(format!("{} returned no parseable JSON output", name_of(Engine::Claude)))
    );
    assert_eq!(
        parse(Engine::Claude, "   \n\t\n"),
        Err(format!("{} returned no parseable JSON output", name_of(Engine::Claude)))
    );
}

#[test]
fn missing_continuation_id_fails() {
    assert_eq!(
        parse(Engine::Claude, "{\"result\":\"done\"}"),
        Err(format!("{} JSON output did not include session_id", name_of(Engine::Claude)))
    );
    assert_eq!(
        parse(
            Engine::Codex,
            "{\"type\":\"item.completed\",\"item\":{\"text\":\"done\"}}"
        ),
        Err("codex JSON output did not include thread_id".to_string())
    );
}

#[test]
fn codex_later_completed_item_overrides_earlier() {
    let raw = "{\"thread_id\":\"t1\"}\n\
               {\"type\":\"item.completed\",\"item\":{\"text\":\"draft\"}}\n\
               {\"type\":\"item.started\",\"item\":{\"text\":\"ignored\"}}\n\
               {\"type\":\"item.completed\",\"item\":{\"text\":\"final\"}}\n\
               {\"thread_id\":\"t2\"}\n";
    assert_eq!(parse(Engine::Codex, raw), ok("final", "t1"));
}

#[test]
fn codex_ignores_text_outside_completed_items() {
    let raw = "{\"thread_id\":\"t1\",\"text\":\"hello\"}\n";
    assert_eq!(parse(Engine::Codex, raw), ok("", "t1"));
}

#[test]
fn claude_keeps_last_nonempty_text() {
    let raw = "{\"session_id\":\"s1\",\"result\":\"first\"}\n\
               {\"result\":\"\"}\n\
               {\"text\":\"second\"}\n\
               {\"other\":1}\n";
    assert_eq!(parse(Engine::Claude, raw), ok("second", "s1"));
}

#[test]
fn empty_string_at_a_higher_priority_place_is_the_candidate() {
    let docs = parse_json_values("{\"result\":\"x\",\"text\":\"\"}");
    assert_eq!(extract_text_candidate(&docs[0]), Some(String::new()));
}

#[test]
fn document_whose_candidate_is_empty_keeps_no_text() {
    let raw = "{\"session_id\":\"s1\",\"result\":\"a\"}\n{\"text\":\"\",\"result\":\"x\"}\n";
    assert_eq!(parse(Engine::Claude, raw), ok("a", "s1"));
    let raw = "{\"session_id\":\"s1\",\"result\":\"a\"}\n{\"result\":\"b\"}\n";
    assert_eq!(parse(Engine::Claude, raw), ok("b", "s1"));
    let codex = "{\"thread_id\":\"t1\"}\n\
                 {\"type\":\"item.completed\",\"item\":{\"text\":\"kept\"}}\n\
                 {\"type\":\"item.completed\",\"item\":{\"text\":\"\"},\"text\":\"x\"}\n";
    assert_eq!(parse(Engine::Codex, codex), ok("kept", "t1"));
}

#[test]
fn claude_skips_unparseable_lines_and_trims() {
    let raw = "warning: something\r\n  {\"session_id\":\"s9\",\"output_text\":\"ok\"}  \r\n";
    assert_eq!(parse(Engine::Claude, raw), ok("ok", "s9"));
}

#[test]
fn whole_output_is_parsed_when_no_line_parses() {
    let raw = "{\n  \"session_id\": \"s2\",\n  \"result\": \"pretty\"\n}\n";
    assert_eq!(parse(Engine::Claude, raw), ok("pretty", "s2"));
}

#[test]
fn text_probes_follow_priority_order() {
    let docs = parse_json_values(
        "{\"result\":\"r\",\"text\":\"t\"}\n\
         {\"message\":{\"content\":[{\"text\":\"mc\"}]}}\n\
         {\"content\":[\"bare\"]}\n\
         {\"content\":[{\"text\":\"ct\"}],\"message\":{\"text\":\"mt\"}}\n\
         {\"content\":[1]}\n",
    );
    assert_eq!(docs.len(), 5);
    assert_eq!(extract_text_candidate(&docs[0]), Some("t".to_string()));
    assert_eq!(extract_text_candidate(&docs[1]), Some("mc".to_string()));
    assert_eq!(extract_text_candidate(&docs[2]), Some("bare".to_string()));
    assert_eq!(extract_text_candidate(&docs[3]), Some("mt".to_string()));
    assert_eq!(extract_text_candidate(&docs[4]), None);
}

#[test]
fn parse_json_values_keeps_members_and_types() {
    let docs = parse_json_values("{\"a\":[null,true,2.5,\"s\"]}");
    assert_eq!(docs.len(), 1);
    match &docs[0] {
        Json::Object(members) => {
            assert_eq!(members.len(), 1);
            assert_eq!(members[0].0, "a");
            match &members[0].1 {
                Json::Array(items) => {
                    assert_eq!(items.len(), 4);
                    assert!(matches!(items[0], Json::Null));
                    assert!(matches!(items[1], Json::Bool(true)));
                    assert!(matches!(&items[2], Json::Number(n) if n == "2.5"));
                    assert!(matches!(&items[3], Json::Str(s) if s == "s"));
                }
                other => panic!("unexpected member value: {other:?}"),
            }
        }
        other => panic!("unexpected document: {other:?}"),
    }
    assert!(parse_json_values("{\"a\":1} trailing").is_empty());
}

#[test]
fn exec_result_envelope_is_one_json_line() {
    let result = ExecResult { text: "say \"hi\"\nbye".to_string(), resume_id: "t1".to_string() };
    let line = format_exec_result_json(&name_of(Engine::Codex), &result);
    assert_eq!(line, "{\"text\":\"say \\\"hi\\\"\\nbye\",\"resume_id\":\"t1\",\"engine\":\"codex\"}");
    let payload: serde_json::Value = serde_json::from_str(&line).expect("envelope should parse");
    assert_eq!(payload["text"], "say \"hi\"\nbye");
    assert_eq!(payload["resume_id"], "t1");
    assert_eq!(payload["engine"], "codex");
}

#[test]
fn envelope_escapes_control_characters() {
    let result = ExecResult { text: "a\u{1}b\u{1f}\t\\".to_string(), resume_id: "r".to_string() };
    assert_eq!(
        format_exec_result_json(&name_of(Engine::Codex), &result),
        "{\"text\":\"a\\u0001b\\u001f\\t\\\\\",\"resume_id\":\"r\",\"engine\":\"codex\"}"
    );
}
