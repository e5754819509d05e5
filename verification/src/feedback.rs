//! The result lines under the file controls: which path a load or save
//! goes to, and what the outcome says.

use vstd::prelude::*;
use crate::fmt::{dec, push_dec, push_str};
use crate::parse::{trim, trimmed};

verus! {

/// The path typed in a file box, trimmed, or the refusal an empty box gets.
pub open spec fn requested_path_spec(text: Seq<char>) -> Result<Seq<char>, Seq<char>> {
    if trim(text).len() == 0 {
        Err("Enter a file path."@)
    } else {
        Ok(trim(text))
    }
}

/// The path a load or save of the config or the radio file goes to: the
/// box's text without surrounding whitespace, or a refusal when that leaves
/// nothing.
pub fn requested_path(text: &str) -> (r: Result<String, String>)
    ensures
        match (r, requested_path_spec(text@)) {
            (Ok(a), Ok(b)) => a@ == b,
            (Err(a), Err(b)) => a@ == b,
            _ => false,
        },
{
    let path = trimmed(text);
    if path.unicode_len() == 0 {
        Err(String::from_str("Enter a file path."))
    } else {
        Ok(path)
    }
}

/// `head` then `path`.
fn phrase(head: &str, path: &str) -> (r: String)
    ensures
        r@ == head@ + path@,
{
    let mut out = String::new();
    push_str(&mut out, head);
    push_str(&mut out, path);
    out
}

/// What a config load says: the file it read, or why it could not.
pub fn load_feedback(path: &str, outcome: Result<(), String>) -> (r: Result<String, String>)
    ensures
        match outcome {
            Ok(()) => r matches Ok(m) && m@ == "Loaded "@ + path@,
            Err(e) => r matches Err(m) && m@ == e@,
        },
{
    match outcome {
        Ok(()) => Ok(phrase("Loaded ", path)),
        Err(e) => Err(e),
    }
}

/// What a config save says: whether it created the file (a documented one
/// generated) or edited the one there in place.
pub fn save_feedback(path: &str, outcome: Result<bool, String>) -> (r: Result<String, String>)
    ensures
        match outcome {
            Ok(true) => r matches Ok(m) && m@ == "Created "@ + path@,
            Ok(false) => r matches Ok(m) && m@ == "Saved "@ + path@,
            Err(e) => r matches Err(m) && m@ == e@,
        },
{
    match outcome {
        Ok(true) => Ok(phrase("Created ", path)),
        Ok(false) => Ok(phrase("Saved ", path)),
        Err(e) => Err(e),
    }
}

/// What a radio file save says: the backup it kept of the previous
/// version, by name, when there was one.
pub fn radio_save_feedback(outcome: Result<Option<String>, String>) -> (r: Result<String, String>)
    ensures
        match outcome {
            Ok(Some(name)) => r matches Ok(m) && m@ == "Saved. Backed up previous version as "@
                + name@,
            Ok(None) => r matches Ok(m) && m@ == "Saved."@,
            Err(e) => r matches Err(m) && m@ == e@,
        },
{
    match outcome {
        Ok(Some(name)) => Ok(phrase("Saved. Backed up previous version as ", name.as_str())),
        Ok(None) => Ok(String::from_str("Saved.")),
        Err(e) => Err(e),
    }
}

/// What starting the recorder says: the file it records to, or why not.
pub fn log_start_feedback(path: &str, outcome: Result<(), String>) -> (r: Result<String, String>)
    ensures
        match outcome {
            Ok(()) => r matches Ok(m) && m@ == "Recording to "@ + path@,
            Err(e) => r matches Err(m) && m@ == e@,
        },
{
    match outcome {
        Ok(()) => Ok(phrase("Recording to ", path)),
        Err(e) => Err(e),
    }
}

/// What stopping the recorder says: how many rows the run wrote.
pub fn log_stop_feedback(written: usize) -> (r: String)
    ensures
        r@ == "Stopped after "@ + dec(written as nat) + " rows"@,
{
    let mut out = String::new();
    push_str(&mut out, "Stopped after ");
    push_dec(&mut out, written as u64);
    push_str(&mut out, " rows");
    assert(out@ =~= "Stopped after "@ + dec(written as nat) + " rows"@);
    out
}

/// What starting a radio file from the firmware defaults says: nothing is
/// written until Save, which is where it will go.
pub fn default_radio_feedback(path: &str, outcome: Result<(), String>) -> (r: Result<String, String>)
    ensures
        match outcome {
            Ok(()) => r matches Ok(m) && m@ == "Default config ready. Press Save to write "@ + path@,
            Err(e) => r matches Err(m) && m@ == e@,
        },
{
    match outcome {
        Ok(()) => Ok(phrase("Default config ready. Press Save to write ", path)),
        Err(e) => Err(e),
    }
}

} // verus!
