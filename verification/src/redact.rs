//! Redaction of sensitive values in status output.
//!
//! A sensitive value is stored as it is. Only its rendering depends on the
//! process-wide switch [`SAFE_MODE`]: with the switch on, the rendering is a
//! fixed marker and shows nothing of the value.

use vstd::prelude::*;
use vstd::string::*;

verus! {

/// The process-wide switch: when `true`, sensitive values are rendered as
/// the redaction marker.
pub const SAFE_MODE: bool = true;

/// The text that stands in for a redacted value.
pub open spec fn marker() -> Seq<char> {
    "[REDACTED]"@
}

/// The line that a sensitive value with the text `text` is rendered as:
/// the marker or the text itself, followed by a line break.
pub open spec fn rendered(text: Seq<char>, safe_mode: bool) -> Seq<char> {
    if safe_mode {
        marker() + "\n"@
    } else {
        text + "\n"@
    }
}

/// Renders `text` as a sensitive value under the given switch.
pub fn render(text: &str, safe_mode: bool) -> (line: String)
    ensures
        line@ == rendered(text@, safe_mode),
{
    let mut line = if safe_mode {
        String::from_str("[REDACTED]")
    } else {
        String::from_str(text)
    };
    line.append("\n");
    line
}

/// A value that may reveal internal detail, kept as the text it would
/// print as.
pub struct Sensitive {
    text: String,
}

impl View for Sensitive {
    type V = Seq<char>;

    /// The text of the value itself, whatever the switch says.
    closed spec fn view(&self) -> Seq<char> {
        self.text@
    }
}

impl Sensitive {
    /// Wraps the text of a sensitive value.
    pub fn new(text: String) -> (value: Sensitive)
        ensures
            value@ == text@,
    {
        Sensitive { text }
    }

    /// The stored text, unredacted.
    pub fn expose(&self) -> (text: &str)
        ensures
            text@ == self@,
    {
        self.text.as_str()
    }

    /// The value as it appears in output: redacted exactly when
    /// [`SAFE_MODE`] is on.
    pub fn to_string(&self) -> (line: String)
        ensures
            line@ == rendered(self@, SAFE_MODE),
    {
        render(self.text.as_str(), SAFE_MODE)
    }
}

} // verus!
