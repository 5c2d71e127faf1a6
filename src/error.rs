//! The errors that the library reports.

use vstd::prelude::*;

verus! {

/// What can go wrong while resolving, searching or extracting a starter.
/// Each variant carries the input it is about.
#[derive(Debug)]
pub enum JumpStartError {
    /// A remote identifier without three or four segments.
    InvalidIdentifier(String),
    /// A local identifier that is not of the form `group/name`.
    UnknownStarter(String),
    /// A starter descriptor that is not a YAML document: where it is, and
    /// what the YAML reader said.
    DescriptorParse(String, String),
    /// No archive entry lies under the requested subdirectory.
    SubdirectoryNotFound(String),
    /// The archive could not be downloaded from this URL.
    DownloadFailed(String),
    /// The search term is not a valid regular expression.
    InvalidPattern(String),
}

/// The text of each error: a fixed lead, the input, a fixed tail.
pub open spec fn message_spec(e: JumpStartError) -> Seq<char> {
    match e {
        JumpStartError::InvalidIdentifier(s) => "Could not parse remote starter from string '"@ + s@
            + "'"@,
        JumpStartError::UnknownStarter(s) => "Not a starter identifier of the form group/name: '"@
            + s@ + "'"@,
        JumpStartError::DescriptorParse(p, m) => "Could not parse starter descriptor "@ + p@
            + ": "@ + m@,
        JumpStartError::SubdirectoryNotFound(s) => "Subdirectory '"@ + s@ + "' not found in archive"@,
        JumpStartError::DownloadFailed(s) => "Failed to download tar: "@ + s@,
        JumpStartError::InvalidPattern(s) => "Invalid search pattern: "@ + s@,
    }
}

fn framed(lead: &str, s: &String, tail: &str) -> (r: String)
    ensures
        r@ == lead@ + s@ + tail@,
{
    String::from_str(lead).concat(s.as_str()).concat(tail)
}

impl JumpStartError {
    /// A human-readable description, naming the offending input.
    pub fn message(&self) -> (r: String)
        ensures
            r@ == message_spec(*self),
    {
        proof {
            reveal_strlit("");
        }
        match self {
            JumpStartError::InvalidIdentifier(s) => framed(
                "Could not parse remote starter from string '",
                s,
                "'",
            ),
            JumpStartError::UnknownStarter(s) => framed(
                "Not a starter identifier of the form group/name: '",
                s,
                "'",
            ),
            JumpStartError::DescriptorParse(p, m) => framed(
                "Could not parse starter descriptor ",
                p,
                ": ",
            ).concat(m.as_str()),
            JumpStartError::SubdirectoryNotFound(s) => framed(
                "Subdirectory '",
                s,
                "' not found in archive",
            ),
            JumpStartError::DownloadFailed(s) => framed("Failed to download tar: ", s, ""),
            JumpStartError::InvalidPattern(s) => framed("Invalid search pattern: ", s, ""),
        }
    }
}

} // verus!
