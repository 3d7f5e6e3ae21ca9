//! `pup events post`: the message, host and limits of a posted event, and the
//! request built from its options.
use vstd::prelude::*;

use crate::idp::entity_query::{clean, clean_strings, views};
use crate::text::{
    concat2, from_chars, is_ws_char, owned, split_chars, split_on, str_eq, to_chars, trim, trim_chars,
    trim_end, trim_str,
};

verus! {

/// The longest aggregation key the events API accepts, in characters.
pub const MAX_AGGREGATION_KEY_CHARS: usize = 100;

/// The longest event text the events API accepts, in characters.
pub const MAX_EVENT_TEXT_CHARS: usize = 4000;

/// How far in the past an event may have happened, in seconds (18 hours).
pub const MAX_EVENT_AGE_SECONDS: i64 = 64800;

/// The alert types of the events API.
#[derive(Clone, Copy, Debug, PartialEq, Eq)]
pub enum EventAlertTypeArg {
    Error,
    Warning,
    Info,
    Success,
    UserUpdate,
    Recommendation,
    Snapshot,
}

impl EventAlertTypeArg {
    /// The name the API uses for the alert type.
    pub fn api_name(self) -> (r: &'static str)
        ensures
            r@ == match self {
                EventAlertTypeArg::Error => "error"@,
                EventAlertTypeArg::Warning => "warning"@,
                EventAlertTypeArg::Info => "info"@,
                EventAlertTypeArg::Success => "success"@,
                EventAlertTypeArg::UserUpdate => "user_update"@,
                EventAlertTypeArg::Recommendation => "recommendation"@,
                EventAlertTypeArg::Snapshot => "snapshot"@,
            },
    {
        match self {
            EventAlertTypeArg::Error => "error",
            EventAlertTypeArg::Warning => "warning",
            EventAlertTypeArg::Info => "info",
            EventAlertTypeArg::Success => "success",
            EventAlertTypeArg::UserUpdate => "user_update",
            EventAlertTypeArg::Recommendation => "recommendation",
            EventAlertTypeArg::Snapshot => "snapshot",
        }
    }
}

/// The alert type a command-line value names, exactly as the API spells it.
pub open spec fn alert_type_named(s: Seq<char>) -> Option<EventAlertTypeArg> {
    if s == "error"@ {
        Some(EventAlertTypeArg::Error)
    } else if s == "warning"@ {
        Some(EventAlertTypeArg::Warning)
    } else if s == "info"@ {
        Some(EventAlertTypeArg::Info)
    } else if s == "success"@ {
        Some(EventAlertTypeArg::Success)
    } else if s == "user_update"@ {
        Some(EventAlertTypeArg::UserUpdate)
    } else if s == "recommendation"@ {
        Some(EventAlertTypeArg::Recommendation)
    } else if s == "snapshot"@ {
        Some(EventAlertTypeArg::Snapshot)
    } else {
        None
    }
}

impl EventAlertTypeArg {
    /// Reads `--alert_type`: one of the API's alert types, spelled as the API
    /// spells it; anything else is refused.
    pub fn from_name(s: &str) -> (r: Option<EventAlertTypeArg>)
        ensures
            r == alert_type_named(s@),
    {
        if str_eq(s, "error") {
            Some(EventAlertTypeArg::Error)
        } else if str_eq(s, "warning") {
            Some(EventAlertTypeArg::Warning)
        } else if str_eq(s, "info") {
            Some(EventAlertTypeArg::Info)
        } else if str_eq(s, "success") {
            Some(EventAlertTypeArg::Success)
        } else if str_eq(s, "user_update") {
            Some(EventAlertTypeArg::UserUpdate)
        } else if str_eq(s, "recommendation") {
            Some(EventAlertTypeArg::Recommendation)
        } else if str_eq(s, "snapshot") {
            Some(EventAlertTypeArg::Snapshot)
        } else {
            None
        }
    }
}

/// The priorities of the events API.
#[derive(Clone, Copy, Debug, PartialEq, Eq)]
pub enum EventPriorityArg {
    Normal,
    Low,
}

impl EventPriorityArg {
    /// The name the API uses for the priority.
    pub fn api_name(self) -> (r: &'static str)
        ensures
            r@ == match self {
                EventPriorityArg::Normal => "normal"@,
                EventPriorityArg::Low => "low"@,
            },
    {
        match self {
            EventPriorityArg::Normal => "normal",
            EventPriorityArg::Low => "low",
        }
    }
}

impl EventPriorityArg {
    /// Reads `--priority`: `normal` or `low`; anything else is refused.
    pub fn from_name(s: &str) -> (r: Option<EventPriorityArg>)
        ensures
            r == if s@ == "normal"@ {
                Some(EventPriorityArg::Normal)
            } else if s@ == "low"@ {
                Some(EventPriorityArg::Low)
            } else {
                None
            },
    {
        if str_eq(s, "normal") {
            Some(EventPriorityArg::Normal)
        } else if str_eq(s, "low") {
            Some(EventPriorityArg::Low)
        } else {
            None
        }
    }
}

/// Options of `pup events post`.
pub struct PostOptions {
    pub title: String,
    pub message: Option<String>,
    pub date_happened: Option<i64>,
    pub handle: Option<String>,
    pub priority: EventPriorityArg,
    pub related_event_id: Option<i64>,
    pub tags: Option<String>,
    pub host: Option<String>,
    pub device: Option<String>,
    pub event_type: Option<String>,
    pub aggregation_key: Option<String>,
    pub alert_type: Option<EventAlertTypeArg>,
}

/// Why an event post was refused.
#[derive(Debug, PartialEq, Eq)]
pub enum EventError {
    EmptyTitle,
    NoMessage,
    StdinUnreadable(String),
    EmptyMessage,
    AggregationKeyTooLong,
    TextTooLong,
    TooOld,
    HostnameNotUtf8,
    HostnameEmpty,
}

/// The message of an event error.
pub open spec fn error_text(e: EventError) -> Seq<char> {
    match e {
        EventError::EmptyTitle => "event title is empty"@,
        EventError::NoMessage => "no event message provided: pass it as an argument or pipe it via stdin"@,
        EventError::StdinUnreadable(s) => "failed to read event message from stdin: "@ + s@,
        EventError::EmptyMessage => "event message is empty"@,
        EventError::AggregationKeyTooLong => "event aggregation key must be at most 100 characters"@,
        EventError::TextTooLong => "event text must be at most 4000 characters"@,
        EventError::TooOld => "event date_happened cannot be more than 18 hours in the past"@,
        EventError::HostnameNotUtf8 => "local hostname is not valid UTF-8"@,
        EventError::HostnameEmpty => "local hostname is empty"@,
    }
}

impl EventError {
    /// The user-facing message (see [`error_text`]).
    pub fn to_string(&self) -> (r: String)
        ensures
            r@ == error_text(*self),
    {
        match self {
            EventError::EmptyTitle => owned("event title is empty"),
            EventError::NoMessage => owned(
                "no event message provided: pass it as an argument or pipe it via stdin",
            ),
            EventError::StdinUnreadable(e) => concat2(
                "failed to read event message from stdin: ",
                e.as_str(),
            ),
            EventError::EmptyMessage => owned("event message is empty"),
            EventError::AggregationKeyTooLong => owned(
                "event aggregation key must be at most 100 characters",
            ),
            EventError::TextTooLong => owned("event text must be at most 4000 characters"),
            EventError::TooOld => owned(
                "event date_happened cannot be more than 18 hours in the past",
            ),
            EventError::HostnameNotUtf8 => owned("local hostname is not valid UTF-8"),
            EventError::HostnameEmpty => owned("local hostname is empty"),
        }
    }
}

/// Checks that an event has a title that is not blank.
pub fn check_title(title: &str) -> (r: Result<(), EventError>)
    ensures
        r == if trim(title@).len() == 0 {
            Err::<(), EventError>(EventError::EmptyTitle)
        } else {
            Ok(())
        },
{
    if trim_chars(&to_chars(title)).len() == 0 {
        Err(EventError::EmptyTitle)
    } else {
        Ok(())
    }
}

fn trim_end_string(s: &str) -> (r: String)
    ensures
        r@ == trim_end(s@),
{
    let v = to_chars(s);
    let mut j: usize = v.len();
    assert(v@.subrange(0, j as int) =~= v@);
    while j > 0 && is_ws_char(v[j - 1])
        invariant
            j <= v@.len(),
            trim_end(v@) == trim_end(v@.subrange(0, j as int)),
        decreases j,
    {
        assert(v@.subrange(0, j as int).drop_last() =~= v@.subrange(0, j - 1));
        j -= 1;
    }
    let mut r: Vec<char> = Vec::new();
    let mut k: usize = 0;
    while k < j
        invariant
            k <= j <= v@.len(),
            r@ == v@.subrange(0, k as int),
        decreases j - k,
    {
        r.push(v[k]);
        assert(r@ =~= v@.subrange(0, k + 1));
        k += 1;
    }
    from_chars(&r)
}

/// The message read from stdin: its trailing whitespace dropped, refused when
/// blank; an unreadable stdin is reported.
pub open spec fn stdin_message(read: Result<String, String>) -> Result<Seq<char>, EventError> {
    match read {
        Err(e) => Err(EventError::StdinUnreadable(e)),
        Ok(buf) => if trim(trim_end(buf@)).len() == 0 {
            Err(EventError::EmptyMessage)
        } else {
            Ok(trim_end(buf@))
        },
    }
}

/// The event message: the one given, else (when stdin is piped) what stdin
/// holds; a blank message is refused, and stdin is read only when no message
/// was given and it is not a terminal.
pub fn resolve_message<F: FnOnce() -> Result<String, String>>(
    message: Option<String>,
    stdin_is_tty: bool,
    read_stdin: F,
) -> (r: Result<String, EventError>)
    requires
        message is None && !stdin_is_tty ==> call_requires(read_stdin, ()),
    ensures
        match message {
            Some(m) => if trim(m@).len() == 0 {
                r == Err::<String, EventError>(EventError::EmptyMessage)
            } else {
                r matches Ok(s) && s@ == m@
            },
            None => if stdin_is_tty {
                r == Err::<String, EventError>(EventError::NoMessage)
            } else {
                exists|read: Result<String, String>|
                    call_ensures(read_stdin, (), read) && match stdin_message(read) {
                        Ok(t) => r matches Ok(s) && s@ == t,
                        Err(e) => r == Err::<String, EventError>(e),
                    }
            },
        },
{
    match message {
        Some(m) => {
            if trim_chars(&to_chars(m.as_str())).len() == 0 {
                Err(EventError::EmptyMessage)
            } else {
                Ok(m)
            }
        },
        None => {
            if stdin_is_tty {
                return Err(EventError::NoMessage);
            }
            let read = read_stdin();
            let ghost got = read;
            match read {
                Err(e) => Err(EventError::StdinUnreadable(e)),
                Ok(buf) => {
                    let m = trim_end_string(buf.as_str());
                    if trim_chars(&to_chars(m.as_str())).len() == 0 {
                        Err(EventError::EmptyMessage)
                    } else {
                        Ok(m)
                    }
                },
            }
        },
    }
}

/// The number of characters of an optional string.
pub open spec fn opt_len(s: Option<String>) -> int {
    match s {
        Some(x) => x@.len() as int,
        None => 0,
    }
}

/// The first limit of the API that an event breaks, in the order they are
/// checked: the aggregation key's length, the text's length, its age.
pub open spec fn post_request_check(options: PostOptions, message: Seq<char>, now: int) -> Result<
    (),
    EventError,
> {
    if opt_len(options.aggregation_key) > MAX_AGGREGATION_KEY_CHARS {
        Err::<(), EventError>(EventError::AggregationKeyTooLong)
    } else if message.len() > MAX_EVENT_TEXT_CHARS {
        Err(EventError::TextTooLong)
    } else if options.date_happened matches Some(d) && d < now - MAX_EVENT_AGE_SECONDS {
        Err(EventError::TooOld)
    } else {
        Ok(())
    }
}

/// An event passes the checks exactly when it is within all three limits: an
/// aggregation key of at most 100 characters, a text of at most 4000, and a
/// time no more than 18 hours before `now`.
pub proof fn law_post_request_within_limits(options: PostOptions, message: Seq<char>, now: int)
    ensures
        post_request_check(options, message, now) is Ok <==> (opt_len(options.aggregation_key)
            <= MAX_AGGREGATION_KEY_CHARS && message.len() <= MAX_EVENT_TEXT_CHARS && !(
        options.date_happened matches Some(d) && d < now - MAX_EVENT_AGE_SECONDS)),
{
}

/// Checks an event against the API's limits (see [`post_request_check`]): the
/// aggregation key and the text must not be too long, and the event must not
/// have happened more than 18 hours before `now`.
pub fn validate_post_request(options: &PostOptions, message: &str, now: i64) -> (r: Result<
    (),
    EventError,
>)
    requires
        options.date_happened is Some ==> now >= i64::MIN + MAX_EVENT_AGE_SECONDS,
    ensures
        r == post_request_check(*options, message@, now as int),
{
    if let Some(key) = &options.aggregation_key {
        if to_chars(key.as_str()).len() > MAX_AGGREGATION_KEY_CHARS {
            return Err(EventError::AggregationKeyTooLong);
        }
    }
    if to_chars(message).len() > MAX_EVENT_TEXT_CHARS {
        return Err(EventError::TextTooLong);
    }
    if let Some(d) = options.date_happened {
        if d < now - MAX_EVENT_AGE_SECONDS {
            return Err(EventError::TooOld);
        }
    }
    Ok(())
}

/// The request that posts an event.
#[derive(Debug, PartialEq, Eq)]
pub struct EventPostBody {
    pub text: String,
    pub title: String,
    pub priority: EventPriorityArg,
    pub tags: Option<Vec<String>>,
    pub host: Option<String>,
    pub date_happened: Option<i64>,
    pub handle: Option<String>,
    pub related_event_id: Option<i64>,
    pub device_name: Option<String>,
    pub source_type_name: Option<String>,
    pub aggregation_key: Option<String>,
    pub alert_type: Option<EventAlertTypeArg>,
}

/// The tags of a comma-separated list: each trimmed, blank ones dropped.
pub open spec fn tag_list(tags: Seq<char>) -> Seq<Seq<char>> {
    clean(split_on(tags, ','))
}

/// The event's tags (see [`tag_list`]).
pub fn split_tags(tags: &str) -> (r: Vec<String>)
    ensures
        views(r@) == tag_list(tags@),
{
    let parts = split_chars(&to_chars(tags), ',');
    let mut strings: Vec<String> = Vec::new();
    let mut i: usize = 0;
    while i < parts.len()
        invariant
            i <= parts@.len(),
            views(strings@) == parts@.map_values(|p: Vec<char>| p@).take(i as int),
        decreases parts@.len() - i,
    {
        let ghost before = views(strings@);
        strings.push(from_chars(&parts[i]));
        assert(views(strings@) =~= before.push(parts@[i as int]@));
        assert(parts@.map_values(|p: Vec<char>| p@).take(i + 1) =~= parts@.map_values(
            |p: Vec<char>| p@,
        ).take(i as int).push(parts@[i as int]@));
        i += 1;
    }
    assert(parts@.map_values(|p: Vec<char>| p@).take(parts@.len() as int) =~= parts@.map_values(
        |p: Vec<char>| p@,
    ));
    clean_strings(strings)
}

/// Builds the request that posts an event with text `message`: every option is
/// carried over, and the tags are split at commas.
pub fn build_post_request(options: PostOptions, message: String) -> (r: EventPostBody)
    ensures
        r.text == message,
        r.title == options.title,
        r.priority == options.priority,
        match options.tags {
            Some(t) => r.tags matches Some(v) && views(v@) == tag_list(t@),
            None => r.tags is None,
        },
        r.host == options.host,
        r.date_happened == options.date_happened,
        r.handle == options.handle,
        r.related_event_id == options.related_event_id,
        r.device_name == options.device,
        r.source_type_name == options.event_type,
        r.aggregation_key == options.aggregation_key,
        r.alert_type == options.alert_type,
{
    let tags = match &options.tags {
        Some(t) => Some(split_tags(t.as_str())),
        None => None,
    };
    EventPostBody {
        text: message,
        title: options.title,
        priority: options.priority,
        tags,
        host: options.host,
        date_happened: options.date_happened,
        handle: options.handle,
        related_event_id: options.related_event_id,
        device_name: options.device,
        source_type_name: options.event_type,
        aggregation_key: options.aggregation_key,
        alert_type: options.alert_type,
    }
}

/// The local host name from the raw lookup (`None` when it is not valid UTF-8):
/// trimmed, refused when empty.
pub fn hostname_from(raw: Option<String>) -> (r: Result<String, EventError>)
    ensures
        match raw {
            None => r == Err::<String, EventError>(EventError::HostnameNotUtf8),
            Some(h) => if trim(h@).len() == 0 {
                r == Err::<String, EventError>(EventError::HostnameEmpty)
            } else {
                r matches Ok(s) && s@ == trim(h@)
            },
        },
{
    match raw {
        None => Err(EventError::HostnameNotUtf8),
        Some(h) => {
            let t = trim_str(h.as_str());
            if to_chars(t.as_str()).len() == 0 {
                Err(EventError::HostnameEmpty)
            } else {
                Ok(t)
            }
        },
    }
}

/// The machine's host name (`gethostname::gethostname`), when it is valid
/// UTF-8. It depends on the machine, so nothing is stated of it.
#[verifier::external_body]
fn raw_hostname() -> (r: Option<String>) {
    gethostname::gethostname().to_str().map(|s| s.to_string())
}

/// The local host name (see [`hostname_from`]); whatever the machine reports,
/// a name that comes back is trimmed and not empty, and the lookup fails only
/// on a name that is not UTF-8 or is blank.
pub fn local_hostname() -> (r: Result<String, EventError>)
    ensures
        r matches Ok(h) ==> h@.len() > 0 && trim(h@) == h@,
        r matches Err(e) ==> (e == EventError::HostnameNotUtf8 || e == EventError::HostnameEmpty),
{
    let raw = raw_hostname();
    let ghost rv = raw;
    let r = hostname_from(raw);
    proof {
        if rv is Some {
            crate::text::lemma_trim_idempotent(rv->Some_0@);
        }
    }
    r
}

/// Where a posted event comes from, and the warning to print when the local
/// host name could not be found.
#[derive(Debug, PartialEq, Eq)]
pub struct HostChoice {
    pub host: Option<String>,
    pub warning: Option<String>,
}

/// The host of an event: none with `--no_host`, the given one when there is
/// one, else the local host name (none, with a warning, when it cannot be found).
pub fn resolve_host_with<F: FnOnce() -> Result<String, EventError>>(
    host: String,
    no_host: bool,
    lookup: F,
) -> (r: HostChoice)
    requires
        !no_host && host@.len() == 0 ==> call_requires(lookup, ()),
    ensures
        no_host ==> r.host is None && r.warning is None,
        !no_host && host@.len() > 0 ==> r.host == Some(host) && r.warning is None,
        !no_host && host@.len() == 0 ==> exists|got: Result<String, EventError>|
            call_ensures(lookup, (), got) && match got {
                Ok(h) => r.host == Some(h) && r.warning is None,
                Err(e) => r.host is None && (r.warning matches Some(w) && w@ == "warning: could not determine local hostname ("@
                    + error_text(e)
                    + "); posting event without a host (use --host to set one or --no_host to silence this)"@),
            },
{
    if no_host {
        HostChoice { host: None, warning: None }
    } else if to_chars(host.as_str()).len() == 0 {
        let got = lookup();
        match got {
            Ok(h) => HostChoice { host: Some(h), warning: None },
            Err(e) => {
                let text = e.to_string();
                let head = concat2("warning: could not determine local hostname (", text.as_str());
                let w = concat2(
                    head.as_str(),
                    "); posting event without a host (use --host to set one or --no_host to silence this)",
                );
                HostChoice { host: None, warning: Some(w) }
            },
        }
    } else {
        HostChoice { host: Some(host), warning: None }
    }
}

/// A message read from stdin is never blank and never ends in whitespace.
pub proof fn law_stdin_message_is_trimmed_at_the_end(read: Result<String, String>)
    ensures
        stdin_message(read) matches Ok(m) ==> trim_end(m) == m && trim(m).len() > 0,
{
    if let Ok(buf) = read {
        crate::text::lemma_trim_end_idempotent(buf@);
    }
}

} // verus!
