//! The message that carries configuration lines to a running terminal: a
//! single JSON text of the shape
//! `{"Config":{"options":[...],"window_id":-1,"reset":false}}`.

use vstd::prelude::*;
use vstd::string::*;
use serde_json::Error as JsonError;
use crate::number::{decimal_text, render_i128};

verus! {

/// `serde_json::Error`, the error of the JSON serializer. It is carried
/// through as it is; nothing is claimed of what it holds.
#[verifier::external_type_specification]
#[verifier::external_body]
pub struct ExJsonError(JsonError);

/// A configuration update.
#[derive(Debug, PartialEq, Eq)]
pub struct IpcConfig {
    /// The configuration lines, each a `dotted.path = value` assignment.
    pub options: Vec<String>,
    /// The window the update is for; `Some(-1)` means every window.
    pub window_id: Option<i128>,
    /// Whether the options given before are dropped first.
    pub reset: bool,
}

/// A message to the terminal.
#[derive(Debug, PartialEq, Eq)]
pub enum SocketMessage {
    /// Update the configuration.
    Config(IpcConfig),
}

/// What `serde_json::to_string` makes of a list of strings: the JSON array
/// of them, or nothing where it fails.
pub uninterp spec fn json_array(strings: Seq<Seq<char>>) -> Option<Seq<char>>;

/// Calls `serde_json::to_string` on `strings`.
///
/// Trusted: the call is a function of the strings' text.
#[verifier::external_body]
fn to_json_array(strings: &Vec<String>) -> (r: Result<String, JsonError>)
    ensures
        match r {
            Ok(text) => json_array(strings.deep_view()) == Some(text@),
            Err(_) => json_array(strings.deep_view()) is None,
        },
{
    serde_json::to_string(strings)
}

/// The JSON text of a window id: the integer in base ten, `null` for none.
pub open spec fn window_text(window_id: Option<i128>) -> Seq<char> {
    match window_id {
        Some(id) => decimal_text(id as int),
        None => "null"@,
    }
}

/// The JSON text of a boolean.
pub open spec fn bool_text(b: bool) -> Seq<char> {
    if b {
        "true"@
    } else {
        "false"@
    }
}

/// The text of a configuration update, given the JSON array of its
/// options: one object under the tag `Config`, with the fields `options`,
/// `window_id` and `reset` in this order and no space anywhere.
pub open spec fn framed(options_json: Seq<char>, window_id: Option<i128>, reset: bool) -> Seq<
    char,
> {
    "{\"Config\":{\"options\":"@ + options_json + ",\"window_id\":"@ + window_text(window_id)
        + ",\"reset\":"@ + bool_text(reset) + "}}"@
}

/// Frames a configuration update around `options_json`, the JSON array of
/// its options.
pub fn frame(options_json: &str, window_id: Option<i128>, reset: bool) -> (text: String)
    ensures
        text@ == framed(options_json@, window_id, reset),
{
    let mut text = "{\"Config\":{\"options\":".to_owned();
    text.append(options_json);
    text.append(",\"window_id\":");
    match window_id {
        Some(id) => {
            let id_text = render_i128(id);
            text.append(id_text.as_str());
        },
        None => {
            text.append("null");
        },
    }
    text.append(",\"reset\":");
    if reset {
        text.append("true");
    } else {
        text.append("false");
    }
    text.append("}}");
    text
}

impl IpcConfig {
    /// The text of the update on the wire, if its options can be written
    /// as a JSON array.
    pub open spec fn wire_text(self) -> Option<Seq<char>> {
        match json_array(self.options.deep_view()) {
            Some(options_json) => Some(framed(options_json, self.window_id, self.reset)),
            None => None,
        }
    }
}

impl SocketMessage {
    /// The text of the message on the wire, if it has one.
    pub open spec fn wire_text(self) -> Option<Seq<char>> {
        match self {
            SocketMessage::Config(config) => config.wire_text(),
        }
    }

    /// The update that sends `options` to the window `window_id`, `-1` for
    /// every window. Nothing is reset.
    pub fn config(options: Vec<String>, window_id: i128) -> (message: SocketMessage)
        ensures
            message == SocketMessage::Config(
                IpcConfig { options, window_id: Some(window_id), reset: false },
            ),
    {
        SocketMessage::Config(IpcConfig { options, window_id: Some(window_id), reset: false })
    }

    /// Serializes the message as compact JSON. It fails where the
    /// serializer fails on the options, with the serializer's error.
    pub fn to_json(&self) -> (r: Result<String, JsonError>)
        ensures
            match self.wire_text() {
                Some(text) => r matches Ok(t) && t@ == text,
                None => r is Err,
            },
    {
        match self {
            SocketMessage::Config(config) => {
                match to_json_array(&config.options) {
                    Ok(options_json) => Ok(
                        frame(options_json.as_str(), config.window_id, config.reset),
                    ),
                    Err(e) => Err(e),
                }
            },
        }
    }
}

} // verus!
