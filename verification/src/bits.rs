//! `pup bits ask`: the checks before a conversation, the requests sent to Bits
//! AI, the choice of agent, the reading of its answers, whole or as a stream of
//! server-sent events, and the lines of an interactive session.
use vstd::prelude::*;

use crate::idp::entities::{opt_text, texts};
use crate::idp::migrate::{entries1, push_member};
use crate::json::{
    get, jentries, jobj, json_document, jstr, jv, jvs, parse_json_document, str_at, str_field,
    vget, Json, JsonV,
};
use crate::text::{
    char_texts, concat2, concat3, from_chars, join, join_strings, owned, slice_chars, split_chars,
    split_on, split_str, split_str_chars, starts_with, starts_with_chars, str_eq, to_chars, trim,
    trim_chars,
};

verus! {

/// The path of the Bits AI (Lassie NG) API.
pub open spec fn lassie_base() -> Seq<char> {
    "/api/unstable/lassie-ng/v1"@
}

/// The credentials of a request: a bearer token when there is an access
/// token, else the API and application keys; none without either.
pub open spec fn auth_header_pairs(
    access_token: Option<Seq<char>>,
    api_key: Option<Seq<char>>,
    app_key: Option<Seq<char>>,
) -> Option<Seq<(Seq<char>, Seq<char>)>> {
    match access_token {
        Some(t) => Some(seq![("Authorization"@, "Bearer "@ + t)]),
        None => match (api_key, app_key) {
            (Some(a), Some(b)) => Some(seq![("DD-API-KEY"@, a), ("DD-APPLICATION-KEY"@, b)]),
            _ => None,
        },
    }
}

pub open spec fn pair_texts(v: Seq<(String, String)>) -> Seq<(Seq<char>, Seq<char>)> {
    v.map_values(|kv: (String, String)| (kv.0@, kv.1@))
}

pub open spec fn str_opt(o: Option<&str>) -> Option<Seq<char>> {
    match o {
        Some(s) => Some(s@),
        None => None,
    }
}

/// The credential headers of a request (see [`auth_header_pairs`]); the
/// error `no authentication configured` without credentials.
pub fn auth_headers(access_token: Option<&str>, api_key: Option<&str>, app_key: Option<&str>) -> (r: Result<
    Vec<(String, String)>,
    String,
>)
    ensures
        match r {
            Ok(h) => auth_header_pairs(str_opt(access_token), str_opt(api_key), str_opt(app_key))
                == Some(pair_texts(h@)),
            Err(e) => auth_header_pairs(str_opt(access_token), str_opt(api_key), str_opt(app_key)) is None
                && e@ == "no authentication configured"@,
        },
{
    let mut h: Vec<(String, String)> = Vec::new();
    match access_token {
        Some(t) => {
            h.push((owned("Authorization"), concat2("Bearer ", t)));
            assert(pair_texts(h@) =~= seq![("Authorization"@, "Bearer "@ + t@)]);
            Ok(h)
        },
        None => match (api_key, app_key) {
            (Some(a), Some(b)) => {
                h.push((owned("DD-API-KEY"), owned(a)));
                h.push((owned("DD-APPLICATION-KEY"), owned(b)));
                assert(pair_texts(h@) =~= seq![("DD-API-KEY"@, a@), ("DD-APPLICATION-KEY"@, b@)]);
                Ok(h)
            },
            _ => Err(owned("no authentication configured")),
        },
    }
}

/// The URL a message to an agent is posted to.
pub fn messages_url(app_base: &str, agent_id: &str) -> (r: String)
    ensures
        r@ == app_base@ + lassie_base() + "/agents/"@ + agent_id@ + "/messages"@,
{
    let mut r = concat3(app_base, "/api/unstable/lassie-ng/v1", "/agents/");
    r.append(agent_id);
    r.append("/messages");
    r
}

/// The body of one turn: the question, whether to stream, and the session
/// to continue when there is one.
pub open spec fn turn_body(query: Seq<char>, session_id: Option<Seq<char>>, stream: bool) -> JsonV {
    let base = seq![("input"@, JsonV::Str(query)), ("stream"@, JsonV::Bool(stream))];
    JsonV::Object(
        match session_id {
            Some(s) => base.push(("session_id"@, JsonV::Str(s))),
            None => base,
        },
    )
}

/// The body of one turn (see [`turn_body`]).
pub fn turn_request_body(query: &str, session_id: &Option<String>, stream: bool) -> (r: Json)
    ensures
        jv(r) == turn_body(query@, opt_text(*session_id), stream),
{
    let mut es = entries1("input", Json::Str(owned(query)));
    push_member(&mut es, "stream", Json::Bool(stream));
    assert(jentries(es@) =~= seq![("input"@, JsonV::Str(query@)), ("stream"@, JsonV::Bool(stream))]);
    match session_id {
        Some(s) => push_member(&mut es, "session_id", Json::Str(s.clone())),
        None => {},
    }
    jobj(es)
}

/// The media type a turn asks for: server-sent events when streaming.
pub fn accept_for(stream: bool) -> (r: &'static str)
    ensures
        r@ == if stream {
            "text/event-stream"@
        } else {
            "application/json"@
        },
{
    if stream {
        "text/event-stream"
    } else {
        "application/json"
    }
}

/// The text of an answer: the non-empty `content` of each assistant message
/// and the non-empty `assistant_message.content` of each message of that
/// type, in order.
pub open spec fn answer_parts(messages: Seq<JsonV>) -> Seq<Seq<char>>
    decreases messages.len(),
{
    if messages.len() == 0 {
        Seq::empty()
    } else {
        let p = answer_parts(messages.drop_last());
        let m = messages.last();
        let p1 = if str_at(m, "role"@) == Some("assistant"@) {
            match str_at(m, "content"@) {
                Some(c) => if c.len() > 0 {
                    p.push(c)
                } else {
                    p
                },
                None => p,
            }
        } else {
            p
        };
        if str_at(m, "message_type"@) == Some("assistant_message"@) {
            match vget(m, "assistant_message"@) {
                Some(a) => match str_at(a, "content"@) {
                    Some(c) => if c.len() > 0 {
                        p1.push(c)
                    } else {
                        p1
                    },
                    None => p1,
                },
                None => p1,
            }
        } else {
            p1
        }
    }
}

/// The text of a whole answer: its parts joined by line breaks; empty when
/// it has no `messages` list.
pub open spec fn answer_text(val: JsonV) -> Seq<char> {
    match vget(val, "messages"@) {
        Some(JsonV::Array(ms)) => join(answer_parts(ms), "\n"@),
        _ => Seq::empty(),
    }
}

fn push_nonempty(parts: &mut Vec<String>, c: Option<String>)
    ensures
        texts(final(parts)@) == match opt_text(c) {
            Some(x) => if x.len() > 0 {
                texts(old(parts)@).push(x)
            } else {
                texts(old(parts)@)
            },
            None => texts(old(parts)@),
        },
{
    match c {
        Some(x) => {
            if to_chars(x.as_str()).len() > 0 {
                let ghost before = texts(parts@);
                let ghost xv = x@;
                parts.push(x);
                assert(texts(parts@) =~= before.push(xv));
            }
        },
        None => {},
    }
}

/// The text of a whole answer (see [`answer_text`]).
pub fn extract_text(val: &Json) -> (r: String)
    ensures
        r@ == answer_text(jv(*val)),
{
    let messages = match get(val, "messages") {
        Some(mv) => match mv {
            Json::Array(ms) => {
                assert(jv(*mv)->Array_0 =~= jvs(ms@));
                ms
            },
            _ => {
                return String::new();
            },
        },
        None => {
            return String::new();
        },
    };
    let ghost mv = jvs(messages@);
    let mut parts: Vec<String> = Vec::new();
    let mut i: usize = 0;
    assert(mv.take(0) =~= Seq::<JsonV>::empty());
    assert(texts(parts@) =~= Seq::<Seq<char>>::empty());
    while i < messages.len()
        invariant
            i <= messages@.len(),
            mv == jvs(messages@),
            texts(parts@) == answer_parts(mv.take(i as int)),
        decreases messages@.len() - i,
    {
        assert(mv.take(i + 1).drop_last() =~= mv.take(i as int));
        assert(mv.take(i + 1).last() == jv(messages@[i as int]));
        let m = &messages[i];
        let is_assistant = match str_field(m, "role") {
            Some(r) => str_eq(r.as_str(), "assistant"),
            None => false,
        };
        if is_assistant {
            push_nonempty(&mut parts, str_field(m, "content"));
        }
        let is_message = match str_field(m, "message_type") {
            Some(t) => str_eq(t.as_str(), "assistant_message"),
            None => false,
        };
        if is_message {
            match get(m, "assistant_message") {
                Some(a) => push_nonempty(&mut parts, str_field(a, "content")),
                None => {},
            }
        }
        i += 1;
    }
    assert(mv.take(messages@.len() as int) =~= mv);
    let r = join_strings(&parts, "\n");
    assert(parts@.map_values(|p: String| p@) =~= texts(parts@));
    r
}

/// The session of a whole answer (its `run_id`) and its text (see
/// [`answer_text`]); the answer is shown as JSON when its text is empty.
pub fn collect_reply(val: &Json) -> (r: (Option<String>, String))
    ensures
        opt_text(r.0) == str_at(jv(*val), "run_id"@),
        r.1@ == answer_text(jv(*val)),
{
    (str_field(val, "run_id"), extract_text(val))
}

/// What the list of agents decides.
pub enum AgentChoice {
    /// Use the first agent.
    Use(String),
    /// No agent exists: create one.
    Create,
    /// The list cannot be used, for the reason given.
    Fail(String),
    /// The response is not a list; it is shown in the message.
    NotAList,
}

/// The message when no agent exists and none may be created.
pub open spec fn no_agents_message() -> Seq<char> {
    "No Bits AI agents found in your Datadog organization.\n\nTo fix this, create a Bits AI agent at:\n  https://app.datadoghq.com/actions/agents/create\n\nOnce created, `pup bits ask` will auto-discover it.\nAlternatively, pass --auto-create to have pup create one for you,\nor pass an existing agent ID with --agent-id."@
}

/// The choice made from the agents listed, as texts.
pub open spec fn choice_view(c: AgentChoice) -> (u8, Seq<char>) {
    match c {
        AgentChoice::Use(id) => (0, id@),
        AgentChoice::Create => (1, Seq::empty()),
        AgentChoice::Fail(m) => (2, m@),
        AgentChoice::NotAList => (3, Seq::empty()),
    }
}

/// The choice made from the agents listed (see [`agent_choice`]).
pub fn choose_agent(val: &Json, auto_create: bool) -> (r: AgentChoice)
    ensures
        choice_view(r) == val_view_choice(jv(*val), auto_create),
{
    match val {
        Json::Array(agents) => {
            assert(jv(*val)->Array_0 =~= jvs(agents@));
            if agents.len() == 0 {
                if auto_create {
                    AgentChoice::Create
                } else {
                    AgentChoice::Fail(
                        owned(
                            "No Bits AI agents found in your Datadog organization.\n\nTo fix this, create a Bits AI agent at:\n  https://app.datadoghq.com/actions/agents/create\n\nOnce created, `pup bits ask` will auto-discover it.\nAlternatively, pass --auto-create to have pup create one for you,\nor pass an existing agent ID with --agent-id.",
                        ),
                    )
                }
            } else {
                match str_field(&agents[0], "id") {
                    Some(id) => AgentChoice::Use(id),
                    None => AgentChoice::Fail(owned("Agent missing 'id' field")),
                }
            }
        },
        _ => AgentChoice::NotAList,
    }
}

/// The choice made from the agents listed, as a tag and a text: 0 and the
/// id of the first agent; 1 to create one when there is none and that is
/// allowed; 2 and the reason the list cannot be used; 3 when the response is
/// not a list.
pub open spec fn val_view_choice(val: JsonV, auto_create: bool) -> (u8, Seq<char>) {
    match val {
        JsonV::Array(agents) => if agents.len() == 0 {
            if auto_create {
                (1, Seq::empty())
            } else {
                (2, no_agents_message())
            }
        } else {
            match str_at(agents[0], "id"@) {
                Some(id) => (0, id),
                None => (2, "Agent missing 'id' field"@),
            }
        },
        _ => (3, Seq::empty()),
    }
}

/// The body that creates an agent for the CLI.
pub fn create_agent_body() -> (r: Json)
    ensures
        jv(r) == JsonV::Object(
            seq![
                ("name"@, JsonV::Str("Pup CLI Agent"@)),
                ("description"@, JsonV::Str("Auto-created by pup CLI for bits ask"@)),
            ],
        ),
{
    let mut es = entries1("name", jstr("Pup CLI Agent"));
    push_member(&mut es, "description", jstr("Auto-created by pup CLI for bits ask"));
    assert(jentries(es@) =~= seq![
        ("name"@, JsonV::Str("Pup CLI Agent"@)),
        ("description"@, JsonV::Str("Auto-created by pup CLI for bits ask"@)),
    ]);
    jobj(es)
}

/// The id of a created agent, or the error when the response has none.
pub fn created_agent_id(val: &Json) -> (r: Result<String, String>)
    ensures
        match r {
            Ok(id) => str_at(jv(*val), "id"@) == Some(id@),
            Err(e) => str_at(jv(*val), "id"@) is None && e@ == "Create-agent response missing 'id' field"@,
        },
{
    match str_field(val, "id") {
        Some(id) => Ok(id),
        None => Err(owned("Create-agent response missing 'id' field")),
    }
}

/// The payloads of the `data: ` lines among `lines`.
pub open spec fn line_payloads(lines: Seq<Seq<char>>) -> Seq<Seq<char>>
    decreases lines.len(),
{
    if lines.len() == 0 {
        Seq::empty()
    } else {
        let p = line_payloads(lines.drop_last());
        if starts_with(lines.last(), "data: "@) {
            p.push(lines.last().skip(6))
        } else {
            p
        }
    }
}

/// The payloads of the `data: ` lines of complete event blocks, in order.
pub open spec fn block_payloads(blocks: Seq<Seq<char>>) -> Seq<Seq<char>>
    decreases blocks.len(),
{
    if blocks.len() == 0 {
        Seq::empty()
    } else {
        block_payloads(blocks.drop_last()) + line_payloads(split_on(blocks.last(), '\n'))
    }
}

/// What one event does: an event that is not JSON is skipped; the first
/// `run_id` seen is the session; an assistant message's `content` is shown.
pub open spec fn event_step(session: Option<Seq<char>>, d: Seq<char>) -> (Option<Seq<char>>, Seq<Seq<char>>) {
    match json_document(d) {
        Err(_) => (session, Seq::empty()),
        Ok(val) => (
            match session {
                Some(x) => Some(x),
                None => str_at(val, "run_id"@),
            },
            if str_at(val, "message_type"@) == Some("assistant_message"@) {
                match str_at(val, "content"@) {
                    Some(c) => seq![c],
                    None => Seq::empty(),
                }
            } else {
                Seq::empty()
            },
        ),
    }
}

/// The events in order, up to a `[DONE]` one: the session, the text shown,
/// and whether the stream is done.
pub open spec fn sse_events(session: Option<Seq<char>>, payloads: Seq<Seq<char>>) -> (
    Option<Seq<char>>,
    Seq<Seq<char>>,
    bool,
)
    decreases payloads.len(),
{
    if payloads.len() == 0 {
        (session, Seq::empty(), false)
    } else if trim(payloads[0]) == "[DONE]"@ {
        (session, Seq::empty(), true)
    } else {
        let (s1, o1) = event_step(session, payloads[0]);
        let (s2, o2, done) = sse_events(s1, payloads.drop_first());
        (s2, o1 + o2, done)
    }
}

/// What a received piece of the stream does: the complete blocks (those
/// ended by a blank line) of what was buffered and the piece are read, and
/// the rest stays buffered.
pub open spec fn sse_feed(buffer: Seq<char>, session: Option<Seq<char>>, text: Seq<char>) -> (
    Seq<char>,
    Option<Seq<char>>,
    Seq<Seq<char>>,
    bool,
) {
    let parts = split_str(buffer + text, "\n\n"@);
    let (s, out, done) = sse_events(session, block_payloads(parts.drop_last()));
    (parts.last(), s, out, done)
}

proof fn lemma_split_str_nonempty(s: Seq<char>, p: Seq<char>)
    ensures
        split_str(s, p).len() >= 1,
{
}

/// A reader of Bits AI's server-sent events: what is buffered of an
/// unfinished block, and the session seen so far.
pub struct SseDecoder {
    buffer: String,
    session_id: Option<String>,
}

impl SseDecoder {
    pub closed spec fn buffered(self) -> Seq<char> {
        self.buffer@
    }

    pub closed spec fn session(self) -> Option<Seq<char>> {
        opt_text(self.session_id)
    }

    /// A reader with nothing buffered and no session.
    pub fn new() -> (r: SseDecoder)
        ensures
            r.buffered() == Seq::<char>::empty(),
            r.session() is None,
    {
        SseDecoder { buffer: String::new(), session_id: None }
    }

    /// The session seen so far.
    pub fn session_id(&self) -> (r: Option<String>)
        ensures
            opt_text(r) == self.session(),
    {
        match &self.session_id {
            Some(s) => Some(s.clone()),
            None => None,
        }
    }

    /// Reads a received piece of the stream (see [`sse_feed`]): the texts to
    /// show, and whether the stream is done.
    pub fn feed(&mut self, text: &str) -> (r: (Vec<String>, bool))
        ensures
            ({
                let (b, s, out, done) = sse_feed(old(self).buffered(), old(self).session(), text@);
                &&& final(self).buffered() == b
                &&& final(self).session() == s
                &&& texts(r.0@) == out
                &&& r.1 == done
            }),
    {
        let mut all = to_chars(self.buffer.as_str());
        let mut more = to_chars(text);
        let ghost (a0, m0) = (all@, more@);
        all.append(&mut more);
        assert(all@ =~= a0 + m0);
        let sep = to_chars("\n\n");
        proof {
            reveal_strlit("\n\n");
        }
        let parts = split_str_chars(all.as_slice(), sep.as_slice());
        let ghost pv = char_texts(parts@);
        proof {
            lemma_split_str_nonempty(all@, "\n\n"@);
        }
        let nblocks = parts.len() - 1;
        let ghost blocks = pv.drop_last();
        let mut payloads: Vec<Vec<char>> = Vec::new();
        let mut i: usize = 0;
        assert(blocks.take(0) =~= Seq::<Seq<char>>::empty());
        assert(char_texts(payloads@) =~= Seq::<Seq<char>>::empty());
        while i < nblocks
            invariant
                i <= nblocks,
                nblocks + 1 == parts@.len(),
                pv == char_texts(parts@),
                blocks == pv.drop_last(),
                char_texts(payloads@) == block_payloads(blocks.take(i as int)),
            decreases nblocks - i,
        {
            assert(blocks.take(i + 1).drop_last() =~= blocks.take(i as int));
            assert(blocks.take(i + 1).last() == parts@[i as int]@);
            let lines = split_chars(parts[i].as_slice(), '\n');
            let ghost lv = lines@.map_values(|p: Vec<char>| p@);
            let ghost p0 = char_texts(payloads@);
            let mut j: usize = 0;
            assert(lv.take(0) =~= Seq::<Seq<char>>::empty());
            assert(char_texts(payloads@) =~= p0 + line_payloads(lv.take(0)));
            while j < lines.len()
                invariant
                    j <= lines@.len(),
                    lv == lines@.map_values(|p: Vec<char>| p@),
                    char_texts(payloads@) == p0 + line_payloads(lv.take(j as int)),
                decreases lines@.len() - j,
            {
                assert(lv.take(j + 1).drop_last() =~= lv.take(j as int));
                assert(lv.take(j + 1).last() == lines@[j as int]@);
                let ghost before = char_texts(payloads@);
                if starts_with_chars(lines[j].as_slice(), &to_chars("data: ")) {
                    proof {
                        reveal_strlit("data: ");
                    }
                    let payload = slice_chars(lines[j].as_slice(), 6, lines[j].len());
                    assert(payload@ =~= lines@[j as int]@.skip(6));
                    let ghost pl = payload@;
                    payloads.push(payload);
                    assert(char_texts(payloads@) =~= before.push(pl));
                }
                j += 1;
            }
            assert(lv.take(lines@.len() as int) =~= lv);
            i += 1;
        }
        assert(blocks.take(nblocks as int) =~= blocks);
        self.buffer = from_chars(parts[nblocks].as_slice());
        assert(self.buffer@ == pv.last());
        let ghost all_payloads = char_texts(payloads@);
        assert(all_payloads == block_payloads(pv.drop_last()));
        let ghost s0 = opt_text(self.session_id);
        let mut out: Vec<String> = Vec::new();
        let mut k: usize = 0;
        let done_token = to_chars("[DONE]");
        assert(all_payloads.skip(0) =~= all_payloads);
        assert(texts(out@) =~= Seq::<Seq<char>>::empty());
        while k < payloads.len()
            invariant
                k <= payloads@.len(),
                all_payloads == char_texts(payloads@),
                all_payloads == block_payloads(pv.drop_last()),
                pv == split_str(old(self).buffered() + text@, "\n\n"@),
                self.buffer@ == pv.last(),
                s0 == old(self).session(),
                done_token@ == "[DONE]"@,
                ({
                    let (s, o, d) = sse_events(opt_text(self.session_id), all_payloads.skip(k as int));
                    sse_events(s0, all_payloads) == (s, texts(out@) + o, d)
                }),
            decreases payloads@.len() - k,
        {
            let ghost rest = all_payloads.skip(k as int);
            assert(rest[0] == payloads@[k as int]@);
            assert(rest.drop_first() =~= all_payloads.skip(k + 1));
            let t = trim_chars(payloads[k].as_slice());
            if crate::text::chars_eq(t.as_slice(), done_token.as_slice()) {
                return (out, true);
            }
            let d = from_chars(payloads[k].as_slice());
            match parse_json_document(d.as_str()) {
                Err(_) => {},
                Ok(val) => {
                    if self.session_id.is_none() {
                        self.session_id = str_field(&val, "run_id");
                    }
                    let is_message = match str_field(&val, "message_type") {
                        Some(t) => str_eq(t.as_str(), "assistant_message"),
                        None => false,
                    };
                    if is_message {
                        match str_field(&val, "content") {
                            Some(c) => {
                                let ghost before = texts(out@);
                                let ghost cv = c@;
                                out.push(c);
                                assert(texts(out@) =~= before + seq![cv]);
                            },
                            None => {},
                        }
                    }
                },
            }
            k += 1;
        }
        assert(all_payloads.skip(payloads@.len() as int) =~= Seq::<Seq<char>>::empty());
        (out, false)
    }
}

/// A conversation needs a query unless it is interactive.
pub fn check_ask(query: Option<&str>, interactive: bool) -> (r: Result<(), String>)
    ensures
        (!interactive && query is None) ==> (r matches Err(e) && e@
            == "a query is required (or use --interactive for a conversation)"@),
        (interactive || query is Some) ==> r is Ok,
{
    if !interactive && query.is_none() {
        return Err(owned("a query is required (or use --interactive for a conversation)"));
    }
    Ok(())
}

/// The agent named by `--agent-id`, when it names one; otherwise the agent is
/// looked up (or created).
pub fn given_agent(agent_id: Option<String>) -> (r: Option<String>)
    ensures
        match agent_id {
            Some(id) => if id@.len() > 0 {
                r == Some(id)
            } else {
                r is None
            },
            None => r is None,
        },
{
    match agent_id {
        Some(id) => if to_chars(id.as_str()).len() > 0 {
            Some(id)
        } else {
            None
        },
        None => None,
    }
}

/// What a line typed in an interactive session does.
#[derive(Debug, PartialEq, Eq)]
pub enum SessionInput {
    /// A blank line: ask again.
    Skip,
    /// `exit` or `quit`: end the session.
    Quit,
    /// Send this message.
    Send(String),
}

/// Reads a line of an interactive session: trimmed, a blank one is skipped,
/// `exit` and `quit` end the session, anything else is sent.
pub fn session_input(line: &str) -> (r: SessionInput)
    ensures
        ({
            let t = trim(line@);
            if t.len() == 0 {
                r == SessionInput::Skip
            } else if t == "exit"@ || t == "quit"@ {
                r == SessionInput::Quit
            } else {
                r matches SessionInput::Send(m) && m@ == t
            }
        }),
{
    let t = trim_chars(&to_chars(line));
    if t.len() == 0 {
        return SessionInput::Skip;
    }
    let m = from_chars(&t);
    if str_eq(m.as_str(), "exit") || str_eq(m.as_str(), "quit") {
        return SessionInput::Quit;
    }
    SessionInput::Send(m)
}

/// The error of a turn that Bits AI answered with a failing status.
pub fn turn_error(status: &str, body: &str) -> (r: String)
    ensures
        r@ == "Bits AI error (HTTP "@ + status@ + "): "@ + body@,
{
    let head = concat3("Bits AI error (HTTP ", status, "): ");
    concat2(head.as_str(), body)
}

} // verus!
