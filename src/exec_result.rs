//! Normalization of an engine's JSON output into one answer text and one
//! continuation id.
use vstd::prelude::*;
use vstd::slice::slice_subrange;
use vstd::string::StringExecFns;

use crate::json::{json_document, json_quoted, parse_json_document, quote_json_string, Json};
use crate::text::{chars_of, trim, trimmed_bounds};

verus! {

/// The engines a turn can be dispatched to. Where a result or a message
/// names the engine, callers pass the name it is invoked by.
#[derive(Clone, Copy, Debug, PartialEq, Eq, Structural)]
pub enum Engine {
    Claude,
    Codex,
}

impl Engine {
    /// The member that carries the engine's continuation id.
    pub open spec fn id_key(self) -> Seq<char> {
        match self {
            Engine::Claude => "session_id"@,
            Engine::Codex => "thread_id"@,
        }
    }
}

/// The canonical outcome of one non-interactive turn.
#[derive(Debug, PartialEq, Eq)]
pub struct ExecResult {
    pub text: String,
    pub resume_id: String,
}

/// What one piece of output contributes: the document that its trimmed
/// text holds, if that text is nonempty and parses.
pub open spec fn piece_documents(piece: Seq<char>) -> Seq<Json> {
    let t = trim(piece);
    if t.len() > 0 && json_document(t) is Some {
        seq![json_document(t)->0]
    } else {
        Seq::empty()
    }
}

/// The documents of the lines of `s` from position `i` on, where the
/// current line began at `start`; lines end at each newline.
pub open spec fn line_documents_from(s: Seq<char>, start: int, i: int) -> Seq<Json>
    recommends
        0 <= start <= i <= s.len(),
    decreases s.len() - i,
{
    if i >= s.len() {
        piece_documents(s.subrange(start, s.len() as int))
    } else if s[i] == '\n' {
        piece_documents(s.subrange(start, i)) + line_documents_from(s, i + 1, i + 1)
    } else {
        line_documents_from(s, start, i + 1)
    }
}

/// The documents of an engine's output: one per line that parses on its
/// own, or, where no line does, the whole output read as one document.
pub open spec fn output_documents(s: Seq<char>) -> Seq<Json> {
    let by_line = line_documents_from(s, 0, 0);
    if by_line.len() > 0 {
        by_line
    } else {
        piece_documents(s)
    }
}

pub open spec fn member_at(v: Option<Json>, key: Seq<char>) -> Option<Json> {
    match v {
        Some(j) => j.field(key),
        None => None,
    }
}

pub open spec fn first_at(v: Option<Json>) -> Option<Json> {
    match v {
        Some(j) => j.first(),
        None => None,
    }
}

/// The text of a value that is a string.
pub open spec fn string_at(v: Option<Json>) -> Option<Seq<char>> {
    match v {
        Some(j) => j.text(),
        None => None,
    }
}

/// The places of a document where answer text may stand, in priority
/// order: `item.text`, `text`, `result`, `output_text`, `message.text`,
/// `content[0].text`, `message.content[0].text`, and `content[0]` itself.
pub open spec fn text_sites(doc: Json) -> Seq<Option<Json>> {
    let d = Some(doc);
    seq![
        member_at(member_at(d, "item"@), "text"@),
        member_at(d, "text"@),
        member_at(d, "result"@),
        member_at(d, "output_text"@),
        member_at(member_at(d, "message"@), "text"@),
        member_at(first_at(member_at(d, "content"@)), "text"@),
        member_at(first_at(member_at(member_at(d, "message"@), "content"@)), "text"@),
        first_at(member_at(d, "content"@)),
    ]
}

/// The first string among `sites`, empty or not.
pub open spec fn first_text(sites: Seq<Option<Json>>) -> Option<Seq<char>>
    decreases sites.len(),
{
    if sites.len() == 0 {
        None
    } else if string_at(sites[0]) is Some {
        string_at(sites[0])
    } else {
        first_text(sites.drop_first())
    }
}

/// The answer text that a document carries, if any.
pub open spec fn text_candidate(doc: Json) -> Option<Seq<char>> {
    first_text(text_sites(doc))
}

/// Whether a document may supply the answer text: for codex, only
/// documents whose `type` is `item.completed`.
pub open spec fn text_eligible(engine: Engine, doc: Json) -> bool {
    match engine {
        Engine::Claude => true,
        Engine::Codex => match doc.field("type"@) {
            Some(t) => t.text() == Some("item.completed"@),
            None => false,
        },
    }
}

/// Whether a document's answer text is present and nonempty.
pub open spec fn has_answer(doc: Json) -> bool {
    match text_candidate(doc) {
        Some(t) => t.len() > 0,
        None => false,
    }
}

/// The nonempty answer text of the last eligible document that has one.
pub open spec fn last_text(engine: Engine, docs: Seq<Json>) -> Option<Seq<char>>
    decreases docs.len(),
{
    if docs.len() == 0 {
        None
    } else if text_eligible(engine, docs.last()) && has_answer(docs.last()) {
        text_candidate(docs.last())
    } else {
        last_text(engine, docs.drop_last())
    }
}

/// The string value of member `key` in the first document that has one.
pub open spec fn first_member_text(docs: Seq<Json>, key: Seq<char>) -> Option<Seq<char>>
    decreases docs.len(),
{
    if docs.len() == 0 {
        None
    } else if first_member_text(docs.drop_last(), key) is Some {
        first_member_text(docs.drop_last(), key)
    } else {
        match docs.last().field(key) {
            Some(v) => v.text(),
            None => None,
        }
    }
}

pub open spec fn no_json_message(engine_name: Seq<char>) -> Seq<char> {
    engine_name + " returned no parseable JSON output"@
}

pub open spec fn missing_id_message(engine: Engine, engine_name: Seq<char>) -> Seq<char> {
    engine_name + " JSON output did not include "@ + engine.id_key()
}

/// What an engine's output amounts to: its answer text and continuation
/// id, or the reason it amounts to nothing.
pub open spec fn normalized(engine: Engine, engine_name: Seq<char>, raw: Seq<char>) -> Result<
    (Seq<char>, Seq<char>),
    Seq<char>,
> {
    let docs = output_documents(raw);
    if docs.len() == 0 {
        Err(no_json_message(engine_name))
    } else {
        match first_member_text(docs, engine.id_key()) {
            None => Err(missing_id_message(engine, engine_name)),
            Some(id) => Ok(
                (
                    match last_text(engine, docs) {
                        Some(t) => t,
                        None => Seq::empty(),
                    },
                    id,
                ),
            ),
        }
    }
}

/// Output in which neither any line nor the whole text is a JSON document
/// fails to normalize, with a message that names the engine.
pub proof fn lemma_output_without_json_fails(engine: Engine, engine_name: Seq<char>, raw: Seq<char>)
    requires
        output_documents(raw).len() == 0,
    ensures
        normalized(engine, engine_name, raw) == Err::<(Seq<char>, Seq<char>), Seq<char>>(
            no_json_message(engine_name),
        ),
{
}

pub open spec fn deref_json(v: Option<&Json>) -> Option<Json> {
    match v {
        Some(j) => Some(*j),
        None => None,
    }
}

pub open spec fn text_view(v: Option<String>) -> Option<Seq<char>> {
    match v {
        Some(s) => Some(s@),
        None => None,
    }
}

fn member_of<'a>(v: Option<&'a Json>, key: &str) -> (r: Option<&'a Json>)
    ensures
        deref_json(r) == member_at(deref_json(v), key@),
{
    match v {
        Some(j) => j.get(key),
        None => None,
    }
}

fn first_of<'a>(v: Option<&'a Json>) -> (r: Option<&'a Json>)
    ensures
        deref_json(r) == first_at(deref_json(v)),
{
    match v {
        Some(j) => j.first_item(),
        None => None,
    }
}

fn site_text(v: Option<&Json>) -> (r: Option<String>)
    ensures
        text_view(r) == string_at(deref_json(v)),
{
    match v {
        Some(j) => match j.as_text() {
            Some(s) => Some(s.clone()),
            None => None,
        },
        None => None,
    }
}

/// The answer text that `doc` carries, probing its text sites in order.
pub fn extract_text_candidate(doc: &Json) -> (r: Option<String>)
    ensures
        text_view(r) == text_candidate(*doc),
{
    proof {
        reveal_with_fuel(first_text, 9);
    }
    let d = Some(doc);
    let found = site_text(member_of(member_of(d, "item"), "text"));
    if found.is_some() {
        return found;
    }
    let found = site_text(member_of(d, "text"));
    if found.is_some() {
        return found;
    }
    let found = site_text(member_of(d, "result"));
    if found.is_some() {
        return found;
    }
    let found = site_text(member_of(d, "output_text"));
    if found.is_some() {
        return found;
    }
    let found = site_text(member_of(member_of(d, "message"), "text"));
    if found.is_some() {
        return found;
    }
    let found = site_text(member_of(first_of(member_of(d, "content")), "text"));
    if found.is_some() {
        return found;
    }
    let found = site_text(member_of(first_of(member_of(member_of(d, "message"), "content")), "text"));
    if found.is_some() {
        return found;
    }
    site_text(first_of(member_of(d, "content")))
}

fn piece_document(chars: &Vec<char>, start: usize, end: usize) -> (r: Option<Json>)
    requires
        start <= end <= chars@.len(),
    ensures
        match r {
            Some(j) => piece_documents(chars@.subrange(start as int, end as int)) == seq![j],
            None => piece_documents(chars@.subrange(start as int, end as int)) == Seq::<Json>::empty(),
        },
{
    let (a, b) = trimmed_bounds(chars, start, end);
    if a < b {
        parse_json_document(slice_subrange(chars.as_slice(), a, b))
    } else {
        None
    }
}

/// The JSON documents in an engine's output.
pub fn parse_json_values(raw: &str) -> (r: Vec<Json>)
    ensures
        r@ == output_documents(raw@),
{
    let chars = chars_of(raw);
    let ghost s = raw@;
    let mut docs: Vec<Json> = Vec::new();
    let mut start: usize = 0;
    let mut i: usize = 0;
    while i < chars.len()
        invariant
            start <= i <= chars@.len(),
            chars@ == s,
            docs@ + line_documents_from(s, start as int, i as int) == line_documents_from(s, 0, 0),
        decreases chars@.len() - i,
    {
        if chars[i] == '\n' {
            let ghost before = docs@;
            match piece_document(&chars, start, i) {
                Some(d) => docs.push(d),
                None => {},
            }
            assert(docs@ + line_documents_from(s, i + 1, i + 1) =~= before + line_documents_from(
                s,
                start as int,
                i as int,
            ));
            start = i + 1;
        }
        i = i + 1;
    }
    let ghost before = docs@;
    match piece_document(&chars, start, i) {
        Some(d) => docs.push(d),
        None => {},
    }
    assert(docs@ =~= before + line_documents_from(s, start as int, i as int));
    if docs.len() == 0 {
        assert(chars@.subrange(0, chars@.len() as int) =~= s);
        match piece_document(&chars, 0, chars.len()) {
            Some(d) => docs.push(d),
            None => {},
        }
        assert(docs@ =~= output_documents(s));
    }
    docs
}

fn completed_item(doc: &Json) -> (r: bool)
    ensures
        r == text_eligible(Engine::Codex, *doc),
{
    match doc.get("type") {
        Some(t) => match t.as_text() {
            Some(s) => *s == String::from_str("item.completed"),
            None => false,
        },
        None => false,
    }
}

/// The string value of member `key` in the first document that has one.
fn first_member_string(docs: &Vec<Json>, key: &str) -> (r: Option<String>)
    ensures
        text_view(r) == first_member_text(docs@, key@),
{
    let mut found: Option<String> = None;
    let mut i: usize = 0;
    while i < docs.len()
        invariant
            i <= docs@.len(),
            text_view(found) == first_member_text(docs@.take(i as int), key@),
        decreases docs@.len() - i,
    {
        assert(docs@.take(i + 1).drop_last() =~= docs@.take(i as int));
        if found.is_none() {
            match docs[i].get(key) {
                Some(v) => match v.as_text() {
                    Some(s) => found = Some(s.clone()),
                    None => {},
                },
                None => {},
            }
        }
        i = i + 1;
    }
    assert(docs@.take(docs@.len() as int) =~= docs@);
    found
}

/// The nonempty answer text of the last eligible document that has one.
fn last_text_candidate(engine: Engine, docs: &Vec<Json>) -> (r: Option<String>)
    ensures
        text_view(r) == last_text(engine, docs@),
{
    let mut found: Option<String> = None;
    let mut i: usize = 0;
    while i < docs.len()
        invariant
            i <= docs@.len(),
            text_view(found) == last_text(engine, docs@.take(i as int)),
        decreases docs@.len() - i,
    {
        assert(docs@.take(i + 1).drop_last() =~= docs@.take(i as int));
        let eligible = match engine {
            Engine::Claude => true,
            Engine::Codex => completed_item(&docs[i]),
        };
        if eligible {
            match extract_text_candidate(&docs[i]) {
                Some(t) => if !t.as_str().is_empty() {
                    found = Some(t);
                },
                None => {},
            }
        }
        i = i + 1;
    }
    assert(docs@.take(docs@.len() as int) =~= docs@);
    found
}

/// Normalizes an engine's raw standard output into its answer text and
/// continuation id; `engine_name` is the name that failures report.
pub fn parse_exec_result(engine: Engine, engine_name: &str, raw_stdout: &str) -> (r: Result<
    ExecResult,
    String,
>)
    ensures
        match r {
            Ok(res) => normalized(engine, engine_name@, raw_stdout@) == Ok::<
                (Seq<char>, Seq<char>),
                Seq<char>,
            >((res.text@, res.resume_id@)),
            Err(e) => normalized(engine, engine_name@, raw_stdout@) == Err::<
                (Seq<char>, Seq<char>),
                Seq<char>,
            >(e@),
        },
{
    let docs = parse_json_values(raw_stdout);
    if docs.len() == 0 {
        let mut message = String::from_str(engine_name);
        message.append(" returned no parseable JSON output");
        return Err(message);
    }
    let key = match engine {
        Engine::Claude => "session_id",
        Engine::Codex => "thread_id",
    };
    match first_member_string(&docs, key) {
        None => {
            let mut message = String::from_str(engine_name);
            message.append(" JSON output did not include ");
            message.append(key);
            Err(message)
        },
        Some(resume_id) => {
            let text = match last_text_candidate(engine, &docs) {
                Some(t) => t,
                None => String::new(),
            };
            Ok(ExecResult { text, resume_id })
        },
    }
}

/// The one-line JSON envelope that reports a turn's result.
pub open spec fn envelope(engine_name: Seq<char>, text: Seq<char>, resume_id: Seq<char>) -> Seq<char> {
    "{\"text\":"@ + json_quoted(text) + ",\"resume_id\":"@ + json_quoted(resume_id)
        + ",\"engine\":"@ + json_quoted(engine_name) + "}"@
}

pub fn format_exec_result_json(engine_name: &str, result: &ExecResult) -> (r: String)
    ensures
        r@ == envelope(engine_name@, result.text@, result.resume_id@),
{
    let mut out = String::from_str("{\"text\":");
    out.append(quote_json_string(result.text.as_str()).as_str());
    out.append(",\"resume_id\":");
    out.append(quote_json_string(result.resume_id.as_str()).as_str());
    out.append(",\"engine\":");
    out.append(quote_json_string(engine_name).as_str());
    out.append("}");
    out
}

} // verus!
