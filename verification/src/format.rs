//! `pup format`: the checks on the JSON handed to the shared formatter, and the
//! metadata envelope that goes with it.
use vstd::prelude::*;

use crate::chain::ErrorChain;
use crate::json::{json_document, jv, parse_json_document, Json, JsonV};
use crate::text::{owned, to_chars, trim, trim_chars};

verus! {

/// The metadata of the agent-mode envelope.
#[derive(Debug)]
pub struct Metadata {
    pub count: Option<usize>,
    pub truncated: bool,
    pub command: Option<String>,
    pub next_action: Option<String>,
}

/// What `pup format` renders of `raw`: its JSON value, with the metadata
/// envelope only when one of its fields was given. A blank input and text that
/// is not JSON are refused, the latter with the parser's message beneath.
pub open spec fn render_spec(raw: Seq<char>) -> Result<JsonV, Seq<Seq<char>>> {
    if trim(raw).len() == 0 {
        Err(seq!["no JSON input provided (pipe JSON to stdin or pass --input FILE)"@])
    } else {
        match json_document(raw) {
            Ok(v) => Ok(v),
            Err(e) => Err(seq!["input is not valid JSON"@, e]),
        }
    }
}

/// The value to render and its metadata envelope (see [`render_spec`]).
pub fn render_input(raw: &str, count: Option<usize>, command: Option<String>, next_action: Option<String>) -> (r:
    Result<(Json, Option<Metadata>), ErrorChain>)
    ensures
        match render_spec(raw@) {
            Ok(v) => r matches Ok((j, m)) && jv(j) == v && if count.is_some() || command.is_some()
                || next_action.is_some() {
                m matches Some(md) && md.count == count && !md.truncated && md.command == command
                    && md.next_action == next_action
            } else {
                m is None
            },
            Err(chain) => r matches Err(e) && e.chain() == chain,
        },
{
    let t = trim_chars(&to_chars(raw));
    if t.len() == 0 {
        return Err(ErrorChain::new(owned("no JSON input provided (pipe JSON to stdin or pass --input FILE)")));
    }
    let value = match parse_json_document(raw) {
        Ok(v) => v,
        Err(e) => {
            let err = ErrorChain::new(e).context(owned("input is not valid JSON"));
            return Err(err);
        },
    };
    let meta = if count.is_some() || command.is_some() || next_action.is_some() {
        Some(Metadata { count, truncated: false, command, next_action })
    } else {
        None
    };
    Ok((value, meta))
}

} // verus!
