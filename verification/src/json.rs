//! Pretty-printing of log payloads that hold JSON, through `serde_json`.

use vstd::prelude::*;

verus! {

/// Whether `serde_json::from_str::<serde_json::Value>` accepts a text as JSON.
pub uninterp spec fn json_accepts(text: Seq<char>) -> bool;

/// The text that `serde_json::to_string_pretty` prints for the JSON value
/// that `serde_json::from_str` reads from `text`.
pub uninterp spec fn json_pretty_text(text: Seq<char>) -> Seq<char>;

/// Reads `text` with `serde_json::from_str::<serde_json::Value>` and prints the
/// value with `serde_json::to_string_pretty`. Trusted: the result is present
/// exactly when the text parses (printing a `Value` does not fail: its object
/// keys are strings and the output goes to a `Vec<u8>`), and it is the text
/// that `json_pretty_text` names.
#[verifier::external_body]
fn pretty_json(text: &str) -> (r: Option<String>)
    ensures
        r is Some <==> json_accepts(text@),
        r matches Some(p) ==> p@ == json_pretty_text(text@),
{
    match serde_json::from_str::<serde_json::Value>(text) {
        Ok(value) => serde_json::to_string_pretty(&value).ok(),
        Err(_) => None,
    }
}

/// The text shown for a log entry, given the pretty-printed metadata (if the
/// entry has metadata and it is JSON) and the pretty-printed message (if the
/// message is JSON): the metadata first, then the message as JSON, then the
/// raw message.
pub fn pick_log_content(metadata_pretty: Option<String>, message_pretty: Option<String>, message: &String) -> (r: String)
    ensures
        r@ == match (metadata_pretty, message_pretty) {
            (Some(m), _) => m@,
            (None, Some(p)) => p@,
            (None, None) => message@,
        },
{
    match metadata_pretty {
        Some(m) => m,
        None => match message_pretty {
            Some(p) => p,
            None => message.clone(),
        },
    }
}

/// The text of the detail view of a log entry, as a function of its metadata
/// (JSON text) and its message.
pub open spec fn log_text(metadata: Option<Seq<char>>, message: Seq<char>) -> Seq<char> {
    match metadata {
        Some(m) if json_accepts(m) => json_pretty_text(m),
        _ => if json_accepts(message) {
            json_pretty_text(message)
        } else {
            message
        },
    }
}

/// The text shown in the detail view of a log entry: its metadata as pretty
/// JSON, else its message as pretty JSON, else its raw message.
pub fn format_log_text(metadata: &Option<String>, message: &String) -> (r: String)
    ensures
        r@ == log_text(
            match metadata {
                Some(m) => Some(m@),
                None => None,
            },
            message@,
        ),
{
    let metadata_pretty = match metadata {
        Some(m) => pretty_json(m.as_str()),
        None => None,
    };
    if metadata_pretty.is_some() {
        return pick_log_content(metadata_pretty, None, message);
    }
    let message_pretty = pretty_json(message.as_str());
    pick_log_content(None, message_pretty, message)
}

} // verus!
