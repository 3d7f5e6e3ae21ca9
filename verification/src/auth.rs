//! Decisions of `pup auth`: where a finished login is saved, which callback
//! org UUIDs are trusted, the checks of login, refresh and token, and the
//! status rows of the stored sessions, and the status report of one.
use vstd::prelude::*;

use crate::idp::migrate::{entries1, push_member};
use crate::json::{jentries, jobj, jv, jvs, Json, JsonV};
use crate::text::{
    i64_to_string, owned,
    ascii_lower, ascii_lower_chars, chars_eq, concat2, concat3, decimal, from_chars, is_ascii_hex,
    join, join_strings, split_whitespace, str_eq, to_chars, usize_to_string, words,
};

verus! {

/// The trailing ` (org: <name>)` of user-facing lines; empty without an org.
pub open spec fn org_suffix_spec(org: Option<Seq<char>>) -> Seq<char> {
    match org {
        Some(o) => " (org: "@ + o + ")"@,
        None => Seq::empty(),
    }
}

/// The trailing ` (org: <name>)` of user-facing lines (see [`org_suffix_spec`]).
pub fn org_suffix(org: Option<&str>) -> (r: String)
    ensures
        r@ == org_suffix_spec(
            match org {
                Some(o) => Some(o@),
                None => None,
            },
        ),
{
    match org {
        Some(o) => concat3(" (org: ", o, ")"),
        None => {
            let r = String::new();
            assert(r@ =~= Seq::<char>::empty());
            r
        },
    }
}

/// The positions of the dashes of a UUID.
pub open spec fn uuid_dash_at(i: int) -> bool {
    i == 8 || i == 13 || i == 18 || i == 23
}

/// The 8-4-4-4-12 shape of a UUID: 36 characters, dashes at the group breaks and
/// ASCII hex digits elsewhere.
pub open spec fn uuid_shaped(s: Seq<char>) -> bool {
    &&& s.len() == 36
    &&& forall|i: int|
        0 <= i < 36 ==> if uuid_dash_at(i) {
            #[trigger] s[i] == '-'
        } else {
            is_ascii_hex(s[i])
        }
}

/// Whether `s` has the shape of a UUID (see [`uuid_shaped`]); the org UUID of a
/// login callback is kept only when it does.
pub fn looks_like_uuid(s: &str) -> (r: bool)
    ensures
        r == uuid_shaped(s@),
{
    let v = to_chars(s);
    if v.len() != 36 {
        return false;
    }
    let mut i: usize = 0;
    while i < 36
        invariant
            i <= 36,
            v@ == s@,
            v@.len() == 36,
            forall|j: int|
                0 <= j < i ==> if uuid_dash_at(j) {
                    #[trigger] v@[j] == '-'
                } else {
                    is_ascii_hex(v@[j])
                },
        decreases 36 - i,
    {
        let c = v[i];
        let ok = if i == 8 || i == 13 || i == 18 || i == 23 {
            c == '-'
        } else {
            ('0' <= c && c <= '9') || ('a' <= c && c <= 'f') || ('A' <= c && c <= 'F')
        };
        if !ok {
            assert(!(if uuid_dash_at(i as int) {
                v@[i as int] == '-'
            } else {
                is_ascii_hex(v@[i as int])
            }));
            return false;
        }
        i += 1;
    }
    true
}

/// Where the token of a finished login is saved.
#[derive(Debug, PartialEq, Eq)]
pub enum SaveTarget {
    /// Under the requested org (the default session when there is none).
    Requested(Option<String>),
    /// Under `label`, because the login returned a different org than the one
    /// that was requested by name.
    Reassigned {
        label: String,
        requested_uuid: String,
        actual_uuid: String,
        actual_name: Option<String>,
    },
}

/// A name that is present and not empty.
pub open spec fn nonempty_name(n: Option<Seq<char>>) -> Option<Seq<char>> {
    match n {
        Some(x) => if x.len() > 0 {
            Some(x)
        } else {
            None
        },
        None => None,
    }
}

/// The label a reassigned login is saved under: the org name and the first eight
/// characters of its UUID, or those characters alone when there is no name.
pub open spec fn reassigned_label(actual: Seq<char>, name: Option<Seq<char>>) -> Seq<char> {
    let prefix = if actual.len() <= 8 {
        actual
    } else {
        actual.take(8)
    };
    match nonempty_name(name) {
        Some(n) => n + " ["@ + prefix + "]"@,
        None => prefix,
    }
}

/// The save target, as character sequences: `None` keeps the requested org,
/// `Some((label, requested, actual, name))` reassigns.
pub open spec fn save_target_spec(
    requested_org: Option<Seq<char>>,
    requested_uuid: Option<Seq<char>>,
    actual_uuid: Option<Seq<char>>,
    actual_name: Option<Seq<char>>,
) -> Option<(Seq<char>, Seq<char>, Seq<char>, Option<Seq<char>>)> {
    match (requested_org, requested_uuid, actual_uuid) {
        (Some(_), Some(req), Some(act)) => if ascii_lower(req) != ascii_lower(act) {
            Some((reassigned_label(act, actual_name), req, act, nonempty_name(actual_name)))
        } else {
            None
        },
        _ => None,
    }
}

/// The character sequence of an optional string slice.
pub open spec fn opt_str(o: Option<&str>) -> Option<Seq<char>> {
    match o {
        Some(s) => Some(s@),
        None => None,
    }
}

/// The character sequence of an optional string.
pub open spec fn opt_string(o: Option<String>) -> Option<Seq<char>> {
    match o {
        Some(s) => Some(s@),
        None => None,
    }
}

fn opt_owned(o: Option<&str>) -> (r: Option<String>)
    ensures
        opt_string(r) == opt_str(o),
{
    match o {
        Some(s) => Some(String::from_str(s)),
        None => None,
    }
}

/// Picks where the token of a finished login is saved. Only a login for a named
/// org whose requested and returned UUIDs differ (ignoring ASCII case) is
/// reassigned, so the default session is always refreshed in place.
pub fn resolve_save_target(
    requested_org: Option<&str>,
    requested_uuid: Option<&str>,
    actual_uuid: Option<&str>,
    actual_org_name: Option<&str>,
) -> (r: SaveTarget)
    ensures
        match save_target_spec(
            opt_str(requested_org),
            opt_str(requested_uuid),
            opt_str(actual_uuid),
            opt_str(actual_org_name),
        ) {
            None => r matches SaveTarget::Requested(o) && opt_string(o) == opt_str(requested_org),
            Some((label, req, act, name)) => r matches SaveTarget::Reassigned {
                label: l,
                requested_uuid: q,
                actual_uuid: a,
                actual_name: n,
            } && l@ == label && q@ == req && a@ == act && opt_string(n) == name,
        },
{
    match (requested_org, requested_uuid, actual_uuid) {
        (Some(_), Some(req), Some(actual)) => {
            let rq = ascii_lower_chars(&to_chars(req));
            let ac = to_chars(actual);
            let al = ascii_lower_chars(&ac);
            if chars_eq(&rq, &al) {
                return SaveTarget::Requested(opt_owned(requested_org));
            }
            let mut prefix: Vec<char> = Vec::new();
            let mut i: usize = 0;
            while i < ac.len() && i < 8
                invariant
                    i <= ac@.len(),
                    i <= 8,
                    prefix@ == ac@.take(i as int),
                decreases 8 - i,
            {
                prefix.push(ac[i]);
                assert(prefix@ =~= ac@.take(i + 1));
                i += 1;
            }
            let ghost pre = if ac@.len() <= 8 {
                ac@
            } else {
                ac@.take(8)
            };
            assert(prefix@ =~= pre);
            let p = from_chars(&prefix);
            let name = match actual_org_name {
                Some(n) => {
                    let nc = to_chars(n);
                    if nc.len() > 0 {
                        Some(String::from_str(n))
                    } else {
                        None
                    }
                },
                None => None,
            };
            let label = match &name {
                Some(n) => {
                    let head = concat2(n.as_str(), " [");
                    concat3(head.as_str(), p.as_str(), "]")
                },
                None => p,
            };
            SaveTarget::Reassigned {
                label,
                requested_uuid: String::from_str(req),
                actual_uuid: String::from_str(actual),
                actual_name: name,
            }
        },
        _ => SaveTarget::Requested(opt_owned(requested_org)),
    }
}

/// What is known of the token stored for a session.
pub struct TokenInfo {
    /// Whether the token has expired.
    pub expired: bool,
    /// When it expires, as the local time to show.
    pub expires_at: String,
    /// Whether a refresh token is stored with it.
    pub has_refresh: bool,
    /// Its space-separated OAuth scopes.
    pub scope: String,
}

/// A stored session and its token, when one could be loaded.
pub struct SessionInfo {
    pub site: String,
    pub org: Option<String>,
    pub token: Option<TokenInfo>,
}

/// One row of `pup auth list`.
#[derive(Debug, PartialEq, Eq)]
pub struct SessionStatus {
    pub expires_at: Option<String>,
    pub has_refresh: bool,
    pub org: Option<String>,
    pub scopes: Vec<String>,
    pub site: String,
    pub status: String,
}

/// The row of a session: `valid` or `expired` with the token's details, or
/// `no token` without them.
pub open spec fn session_row(s: SessionInfo, r: SessionStatus) -> bool {
    &&& r.site@ == s.site@
    &&& opt_string(r.org) == opt_string(s.org)
    &&& match s.token {
        Some(t) => {
            &&& opt_string(r.expires_at) == Some(t.expires_at@)
            &&& r.has_refresh == t.has_refresh
            &&& r.scopes@.map_values(|w: String| w@) == words(t.scope@)
            &&& r.status@ == if t.expired {
                "expired"@
            } else {
                "valid"@
            }
        },
        None => {
            &&& r.expires_at is None
            &&& !r.has_refresh
            &&& r.scopes@.len() == 0
            &&& r.status@ == "no token"@
        },
    }
}

fn copy_opt(o: &Option<String>) -> (r: Option<String>)
    ensures
        opt_string(r) == opt_string(*o),
{
    match o {
        Some(s) => Some(s.clone()),
        None => None,
    }
}

/// The rows of `pup auth list`, one per stored session, in order.
pub fn list(sessions: &Vec<SessionInfo>) -> (r: Vec<SessionStatus>)
    ensures
        r@.len() == sessions@.len(),
        forall|i: int| 0 <= i < r@.len() ==> session_row(sessions@[i], #[trigger] r@[i]),
{
    let mut rows: Vec<SessionStatus> = Vec::new();
    let mut i: usize = 0;
    while i < sessions.len()
        invariant
            i <= sessions@.len(),
            rows@.len() == i,
            forall|j: int| 0 <= j < i ==> session_row(sessions@[j], #[trigger] rows@[j]),
        decreases sessions@.len() - i,
    {
        let s = &sessions[i];
        let row = match &s.token {
            Some(t) => SessionStatus {
                expires_at: Some(t.expires_at.clone()),
                has_refresh: t.has_refresh,
                org: copy_opt(&s.org),
                scopes: split_whitespace(t.scope.as_str()),
                site: s.site.clone(),
                status: if t.expired {
                    String::from_str("expired")
                } else {
                    String::from_str("valid")
                },
            },
            None => SessionStatus {
                expires_at: None,
                has_refresh: false,
                org: copy_opt(&s.org),
                scopes: Vec::new(),
                site: s.site.clone(),
                status: String::from_str("no token"),
            },
        };
        rows.push(row);
        i += 1;
    }
    rows
}

/// A login for a named org is reassigned exactly when the UUID it hinted and the
/// UUID the login returned differ ignoring ASCII case; the default session is
/// never reassigned.
pub proof fn law_reassign_only_on_named_mismatch(
    requested_org: Option<Seq<char>>,
    requested_uuid: Option<Seq<char>>,
    actual_uuid: Option<Seq<char>>,
    actual_name: Option<Seq<char>>,
)
    ensures
        requested_org is None ==> save_target_spec(
            requested_org,
            requested_uuid,
            actual_uuid,
            actual_name,
        ) is None,
        (requested_org is Some && requested_uuid is Some && actual_uuid is Some) ==> (save_target_spec(
            requested_org,
            requested_uuid,
            actual_uuid,
            actual_name,
        ) is Some <==> ascii_lower(requested_uuid->0) != ascii_lower(actual_uuid->0)),
{
}

/// A reassigned label always ends with the first eight characters of the
/// returned UUID, so two different orgs never share a label.
pub proof fn law_reassigned_label_ends_with_uuid_prefix(actual: Seq<char>, name: Option<Seq<char>>)
    requires
        actual.len() >= 8,
    ensures
        ({
            let l = reassigned_label(actual, name);
            match nonempty_name(name) {
                Some(n) => l.skip(l.len() - 9) == actual.take(8) + "]"@,
                None => l == actual.take(8),
            }
        }),
{
    let l = reassigned_label(actual, name);
    match nonempty_name(name) {
        Some(n) => {
            reveal_strlit("]");
            reveal_strlit(" [");
            assert(l.skip(l.len() - 9) =~= actual.take(8) + "]"@);
        },
        None => {},
    }
}

/// The org UUID hinted at login: the one given, else the one of the saved
/// session.
pub fn effective_org_uuid(flag: Option<&str>, stored: Option<String>) -> (r: Option<String>)
    ensures
        opt_string(r) == match opt_str(flag) {
            Some(f) => Some(f),
            None => opt_string(stored),
        },
{
    match flag {
        Some(f) => Some(String::from_str(f)),
        None => stored,
    }
}

/// The line announcing the scopes requested: their number, and the scopes
/// themselves when there are at most ten.
pub open spec fn scope_line(scopes: Seq<Seq<char>>) -> Seq<char> {
    if scopes.len() > 10 {
        "🔑 Requesting "@ + decimal(scopes.len() as int) + " scope(s) (use --scopes to customize)"@
    } else {
        "🔑 Requesting "@ + decimal(scopes.len() as int) + " scope(s): "@ + join(scopes, ", "@)
    }
}

/// The line announcing the scopes requested (see [`scope_line`]).
pub fn scope_message(scopes: &Vec<String>) -> (r: String)
    ensures
        r@ == scope_line(scopes@.map_values(|s: String| s@)),
{
    let mut r = concat2("🔑 Requesting ", usize_to_string(scopes.len()).as_str());
    if scopes.len() > 10 {
        r.append(" scope(s) (use --scopes to customize)");
    } else {
        r.append(" scope(s): ");
        r.append(join_strings(scopes, ", ").as_str());
    }
    r
}

/// What login does with the OAuth client registered for a site.
pub enum Registration {
    /// The saved client has the expected name: use it.
    Reuse,
    /// The saved client has another name: delete it and register anew.
    Replace,
    /// No client is saved: register one.
    RegisterNew,
}

/// What login does with the saved client (see [`Registration`]).
pub fn client_registration(saved_name: Option<&str>, client_name: &str) -> (r: Registration)
    ensures
        match r {
            Registration::Reuse => saved_name matches Some(n) && n@ == client_name@,
            Registration::Replace => saved_name matches Some(n) && n@ != client_name@,
            Registration::RegisterNew => saved_name is None,
        },
{
    match saved_name {
        Some(n) => if str_eq(n, client_name) {
            Registration::Reuse
        } else {
            Registration::Replace
        },
        None => Registration::RegisterNew,
    }
}

/// The OAuth callback is refused when it carries an error, with its
/// description (empty when none), and when its state is not the one sent.
pub open spec fn callback_check(
    error: Option<Seq<char>>,
    description: Option<Seq<char>>,
    state: Seq<char>,
    sent: Seq<char>,
) -> Result<(), Seq<char>> {
    match error {
        Some(e) => Err(
            "OAuth error: "@ + e + ": "@ + match description {
                Some(d) => d,
                None => Seq::empty(),
            },
        ),
        None => if state != sent {
            Err("OAuth state mismatch (possible CSRF attack)"@)
        } else {
            Ok(())
        },
    }
}

/// Whether the OAuth callback may be used (see [`callback_check`]).
pub fn check_callback(error: Option<&str>, description: Option<&str>, state: &str, sent: &str) -> (r: Result<(), String>)
    ensures
        match r {
            Ok(_) => callback_check(opt_str(error), opt_str(description), state@, sent@) is Ok,
            Err(e) => callback_check(opt_str(error), opt_str(description), state@, sent@)
                == Err::<(), Seq<char>>(e@),
        },
{
    match error {
        Some(e) => {
            let mut m = concat3("OAuth error: ", e, ": ");
            match description {
                Some(d) => m.append(d),
                None => {},
            }
            Err(m)
        },
        None => if !str_eq(state, sent) {
            Err(String::from_str("OAuth state mismatch (possible CSRF attack)"))
        } else {
            Ok(())
        },
    }
}

/// The `dd_oid` of the callback when it is shaped like a UUID.
pub fn validated_org_id(dd_oid: Option<&str>) -> (r: Option<String>)
    ensures
        opt_string(r) == match opt_str(dd_oid) {
            Some(u) => if uuid_shaped(u) {
                Some(u)
            } else {
                None
            },
            None => None,
        },
{
    match dd_oid {
        Some(u) => if looks_like_uuid(u) {
            Some(String::from_str(u))
        } else {
            None
        },
        None => None,
    }
}

/// The org UUID saved with the session: the callback's validated `dd_oid`,
/// else the one hinted.
pub fn saved_org_uuid(validated: &Option<String>, effective: &Option<String>) -> (r: Option<String>)
    ensures
        opt_string(r) == match opt_string(*validated) {
            Some(v) => Some(v),
            None => opt_string(*effective),
        },
{
    match validated {
        Some(v) => Some(v.clone()),
        None => match effective {
            Some(e) => Some(e.clone()),
            None => None,
        },
    }
}

/// The warning when login saves the token under another org than requested.
pub open spec fn reassign_warning_text(
    org: Option<Seq<char>>,
    label: Seq<char>,
    requested: Seq<char>,
    actual: Seq<char>,
    actual_name: Option<Seq<char>>,
) -> Seq<char> {
    "⚠️  Requested org UUID "@ + requested + " but OAuth returned "@ + actual + match actual_name {
        Some(n) => " ("@ + n + ")"@,
        None => Seq::empty(),
    } + ". Saving token under \""@ + label + "\" instead of the requested label."@ + match org {
        Some(o) => "\n   Your existing '"@ + o + "' session is unchanged. Run `pup auth logout --org "@ + o
            + "` to clear it if it's stale."@,
        None => Seq::empty(),
    }
}

/// The warning when login saves the token under another org than requested
/// (see [`reassign_warning_text`]).
pub fn reassign_warning(
    org: Option<&str>,
    label: &str,
    requested: &str,
    actual: &str,
    actual_name: Option<&str>,
) -> (r: String)
    ensures
        r@ == reassign_warning_text(opt_str(org), label@, requested@, actual@, opt_str(actual_name)),
{
    let mut r = concat3("⚠️  Requested org UUID ", requested, " but OAuth returned ");
    r.append(actual);
    match actual_name {
        Some(n) => {
            r.append(" (");
            r.append(n);
            r.append(")");
        },
        None => {},
    }
    r.append(". Saving token under \"");
    r.append(label);
    r.append("\" instead of the requested label.");
    match org {
        Some(o) => {
            r.append("\n   Your existing '");
            r.append(o);
            r.append("' session is unchanged. Run `pup auth logout --org ");
            r.append(o);
            r.append("` to clear it if it's stale.");
        },
        None => {},
    }
    r
}

/// What logout reports, and whether it also removes the site's client
/// credentials (only for the session without an org: they are shared).
pub fn logout_outcome(site: &str, org: Option<&str>) -> (r: (bool, String))
    ensures
        r.0 == (org is None),
        r.1@ == "Logged out from "@ + site@ + org_suffix_spec(opt_str(org)) + ". Tokens removed."@,
{
    let mut m = concat2("Logged out from ", site);
    m.append(org_suffix(org).as_str());
    m.append(". Tokens removed.");
    (org.is_none(), m)
}

/// The token `pup auth token` prints: the configured access token, else the
/// saved one unless it has expired.
pub open spec fn token_choice(configured: Option<Seq<char>>, saved: Option<(Seq<char>, bool)>) -> Result<Seq<char>, Seq<char>> {
    match configured {
        Some(t) => Ok(t),
        None => match saved {
            Some((t, expired)) => if expired {
                Err("token is expired — run 'pup auth login' to refresh"@)
            } else {
                Ok(t)
            },
            None => Err("no token available — run 'pup auth login' or set DD_ACCESS_TOKEN"@),
        },
    }
}

/// The token `pup auth token` prints (see [`token_choice`]); `saved` is the
/// saved access token and whether it has expired.
pub fn token_to_print(configured: &Option<String>, saved: Option<(String, bool)>) -> (r: Result<String, String>)
    ensures
        match r {
            Ok(t) => token_choice(opt_string(*configured), match saved {
                Some((t, e)) => Some((t@, e)),
                None => None,
            }) == Ok::<Seq<char>, Seq<char>>(t@),
            Err(e) => token_choice(opt_string(*configured), match saved {
                Some((t, e)) => Some((t@, e)),
                None => None,
            }) == Err::<Seq<char>, Seq<char>>(e@),
        },
{
    match configured {
        Some(t) => Ok(t.clone()),
        None => match saved {
            Some((t, expired)) => if expired {
                Err(String::from_str("token is expired — run 'pup auth login' to refresh"))
            } else {
                Ok(t)
            },
            None => Err(String::from_str("no token available — run 'pup auth login' or set DD_ACCESS_TOKEN")),
        },
    }
}

/// Whether a refresh can start: there must be saved tokens with a refresh
/// token, and the site's client credentials.
pub open spec fn refresh_check(site: Seq<char>, refresh_token: Option<Seq<char>>, has_client: bool) -> Result<(), Seq<char>> {
    match refresh_token {
        None => Err("no tokens found for site "@ + site + " — run 'pup auth login' first"@),
        Some(t) => if t.len() == 0 {
            Err("no refresh token available — run 'pup auth login' to re-authenticate"@)
        } else if !has_client {
            Err("no client credentials found for site "@ + site + " — run 'pup auth login' first"@)
        } else {
            Ok(())
        },
    }
}

/// Whether a refresh can start (see [`refresh_check`]); `refresh_token` is
/// that of the saved tokens, when there are any.
pub fn check_refresh(site: &str, refresh_token: Option<&str>, has_client: bool) -> (r: Result<(), String>)
    ensures
        match r {
            Ok(_) => refresh_check(site@, opt_str(refresh_token), has_client) is Ok,
            Err(e) => refresh_check(site@, opt_str(refresh_token), has_client) == Err::<(), Seq<char>>(e@),
        },
{
    match refresh_token {
        None => Err(concat3("no tokens found for site ", site, " — run 'pup auth login' first")),
        Some(t) => if crate::text::to_chars(t).len() == 0 {
            Err(String::from_str("no refresh token available — run 'pup auth login' to re-authenticate"))
        } else if !has_client {
            Err(concat3("no client credentials found for site ", site, " — run 'pup auth login' first"))
        } else {
            Ok(())
        },
    }
}

/// What the status report reads of a saved token. `expired` is the token's own
/// expiry check; the times are in seconds since the epoch.
pub struct StoredToken {
    pub issued_at: i64,
    pub expires_in: i64,
    pub expired: bool,
    pub scope: String,
    pub refresh_token: String,
    pub token_type: String,
}

/// Integer division truncated toward zero, as Rust's `/` on `i64`.
pub open spec fn trunc_div(a: int, b: int) -> int {
    if a >= 0 {
        a / b
    } else {
        -((-a) / b)
    }
}

/// The remainder of [`trunc_div`], with the sign of `a`, as Rust's `%`.
pub open spec fn trunc_rem(a: int, b: int) -> int {
    if a >= 0 {
        a % b
    } else {
        -((-a) % b)
    }
}

/// The time left before a token expires, as `<minutes>m<seconds>s`.
pub open spec fn remaining_text(remaining: int) -> Seq<char> {
    decimal(trunc_div(remaining, 60)) + "m"@ + decimal(trunc_rem(remaining, 60)) + "s"@
}

/// An optional text as JSON: the string or `null`.
pub open spec fn opt_str_json(o: Option<Seq<char>>) -> JsonV {
    match o {
        Some(s) => JsonV::Str(s),
        None => JsonV::Null,
    }
}

/// The status report of a site and org: the lines written to standard error
/// and the JSON document printed. `expires_at` is the local RFC 3339 text of
/// the expiry time, and `now` the current time.
pub open spec fn status_report_spec(
    site: Seq<char>,
    org: Option<Seq<char>>,
    token: Option<StoredToken>,
    now: int,
    expires_at: Seq<char>,
) -> (Seq<Seq<char>>, JsonV) {
    let label = org_suffix_spec(org);
    match token {
        Some(t) => {
            let remaining = t.issued_at + t.expires_in - now;
            (
                if t.expired {
                    seq!["⚠️  Token expired for site: "@ + site + label]
                } else {
                    seq![
                        "✅ Authenticated for site: "@ + site + label,
                        "   Token expires in: "@ + remaining_text(remaining),
                    ]
                },
                JsonV::Object(seq![
                    ("authenticated"@, JsonV::Bool(true)),
                    ("expires_at"@, JsonV::Str(expires_at)),
                    ("has_refresh"@, JsonV::Bool(t.refresh_token@.len() > 0)),
                    ("org"@, opt_str_json(org)),
                    ("scopes"@, JsonV::Array(words(t.scope@).map_values(|w: Seq<char>| JsonV::Str(w)))),
                    ("site"@, JsonV::Str(site)),
                    ("status"@, JsonV::Str(if t.expired { "expired"@ } else { "valid"@ })),
                    ("token_type"@, JsonV::Str(t.token_type@)),
                ]),
            )
        },
        None => (
            seq!["❌ Not authenticated for site: "@ + site + label],
            JsonV::Object(seq![
                ("authenticated"@, JsonV::Bool(false)),
                ("org"@, opt_str_json(org)),
                ("site"@, JsonV::Str(site)),
                ("status"@, JsonV::Str("no token"@)),
            ]),
        ),
    }
}

fn remaining_string(remaining: i64) -> (r: String)
    ensures
        r@ == remaining_text(remaining as int),
{
    let (mins, secs): (i64, i64) = if remaining >= 0 {
        (remaining / 60, remaining % 60)
    } else if remaining == i64::MIN {
        (-153722867280912930i64, -8i64)
    } else {
        let p: i64 = -remaining;
        (-(p / 60), -(p % 60))
    };
    let a = concat2(i64_to_string(mins).as_str(), "m");
    let b = concat2(i64_to_string(secs).as_str(), "s");
    concat2(a.as_str(), b.as_str())
}

fn opt_str_value(o: Option<&str>) -> (r: Json)
    ensures
        jv(r) == opt_str_json(
            match o {
                Some(s) => Some(s@),
                None => None,
            },
        ),
{
    match o {
        Some(s) => Json::Str(owned(s)),
        None => Json::Null,
    }
}

/// The status report of `pup auth status` (see [`status_report_spec`]).
pub fn status_report(site: &str, org: Option<&str>, token: Option<&StoredToken>, now: i64, expires_at: &str) -> (r: (
    Vec<String>,
    Json,
))
    requires
        token matches Some(t) ==> i64::MIN <= t.issued_at + t.expires_in <= i64::MAX,
        token matches Some(t) ==> i64::MIN <= t.issued_at + t.expires_in - now <= i64::MAX,
    ensures
        ({
            let (lines, doc) = status_report_spec(
                site@,
                match org {
                    Some(o) => Some(o@),
                    None => None,
                },
                match token {
                    Some(t) => Some(*t),
                    None => None,
                },
                now as int,
                expires_at@,
            );
            r.0@.map_values(|l: String| l@) == lines && jv(r.1) == doc
        }),
{
    let label = org_suffix(org);
    let ghost ov: Option<Seq<char>> = match org {
        Some(o) => Some(o@),
        None => None,
    };
    let mut lines: Vec<String> = Vec::new();
    match token {
        Some(t) => {
            let expires_at_ts = t.issued_at + t.expires_in;
            let remaining = expires_at_ts - now;
            if t.expired {
                lines.push(concat3("⚠️  Token expired for site: ", site, label.as_str()));
            } else {
                lines.push(concat3("✅ Authenticated for site: ", site, label.as_str()));
                lines.push(concat2("   Token expires in: ", remaining_string(remaining).as_str()));
            }
            let words_v = split_whitespace(t.scope.as_str());
            let mut scopes: Vec<Json> = Vec::new();
            let mut i: usize = 0;
            let ghost ws = words(t.scope@);
            while i < words_v.len()
                invariant
                    i <= words_v@.len(),
                    words_v@.map_values(|w: String| w@) == ws,
                    jvs(scopes@) == ws.take(i as int).map_values(|w: Seq<char>| JsonV::Str(w)),
                decreases words_v@.len() - i,
            {
                let ghost before = jvs(scopes@);
                assert(ws[i as int] == words_v@[i as int]@);
                scopes.push(Json::Str(words_v[i].clone()));
                assert(jvs(scopes@) =~= before.push(JsonV::Str(ws[i as int])));
                assert(ws.take(i + 1).map_values(|w: Seq<char>| JsonV::Str(w)) =~= ws.take(i as int).map_values(|w: Seq<char>| JsonV::Str(w)).push(JsonV::Str(ws[i as int])));
                i += 1;
            }
            assert(ws.take(words_v@.len() as int) =~= ws);
            let mut es = entries1("authenticated", Json::Bool(true));
            push_member(&mut es, "expires_at", Json::Str(owned(expires_at)));
            push_member(&mut es, "has_refresh", Json::Bool(to_chars(t.refresh_token.as_str()).len() > 0));
            push_member(&mut es, "org", opt_str_value(org));
            push_member(&mut es, "scopes", crate::json::jarr(scopes));
            push_member(&mut es, "site", Json::Str(owned(site)));
            push_member(&mut es, "status", Json::Str(owned(if t.expired { "expired" } else { "valid" })));
            push_member(&mut es, "token_type", Json::Str(t.token_type.clone()));
            let ghost spec = status_report_spec(site@, ov, Some(*t), now as int, expires_at@);
            assert(jentries(es@) =~= spec.1->Object_0);
            assert(lines@.map_values(|l: String| l@) =~= spec.0);
            (lines, jobj(es))
        },
        None => {
            lines.push(concat3("❌ Not authenticated for site: ", site, label.as_str()));
            let mut es = entries1("authenticated", Json::Bool(false));
            push_member(&mut es, "org", opt_str_value(org));
            push_member(&mut es, "site", Json::Str(owned(site)));
            push_member(&mut es, "status", Json::Str(owned("no token")));
            let ghost spec = status_report_spec(site@, ov, None, now as int, expires_at@);
            assert(jentries(es@) =~= spec.1->Object_0);
            assert(lines@.map_values(|l: String| l@) =~= spec.0);
            (lines, jobj(es))
        },
    }
}

} // verus!
