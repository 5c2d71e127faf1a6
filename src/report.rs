//! How a search result is shown: `<instance path><group>/<name>`, or a
//! JSON object `{"instance": {"name", "path"}, "starter": {"group",
//! "main_file", "name"}}` with its keys in sorted order.

use vstd::prelude::*;
use crate::config::JumpStartInstance;
use crate::descriptor::opt_string_view;
use crate::starter::LocalStarter;

verus! {

/// The JSON string literal that `serde_json` writes for the text `s`.
pub uninterp spec fn json_quoted(s: Seq<char>) -> Seq<char>;

/// Relies on serde_json::to_string on a `str`: the text as a JSON string
/// literal, quoted and escaped. Writing into memory does not fail.
#[verifier::external_body]
fn json_string(s: &str) -> (r: String)
    ensures
        r@ == json_quoted(s@),
{
    serde_json::to_string(s).unwrap_or_default()
}

/// A JSON string, or `null`.
pub open spec fn json_opt(s: Option<Seq<char>>) -> Seq<char> {
    match s {
        Some(t) => json_quoted(t),
        None => "null"@,
    }
}

/// The main file that a starter's descriptor declares.
pub open spec fn main_file_of(starter: LocalStarter) -> Option<Seq<char>> {
    match starter.config {
        Some(c) => opt_string_view(c.main_file),
        None => None,
    }
}

pub open spec fn result_json(instance: JumpStartInstance, starter: LocalStarter) -> Seq<char> {
    "{\"instance\":{\"name\":"@ + json_quoted(instance.name@) + ",\"path\":"@ + json_quoted(
        instance.path@,
    ) + "},\"starter\":{\"group\":"@ + json_quoted(starter.group@) + ",\"main_file\":"@ + json_opt(
        main_file_of(starter),
    ) + ",\"name\":"@ + json_quoted(starter.name@) + "}}"@
}

/// Formats a search result as JSON or as the instance path followed by the
/// starter path.
pub fn format_result(instance: &JumpStartInstance, starter: &LocalStarter, json: bool) -> (r:
    String)
    ensures
        !json ==> r@ == instance.path@ + starter.path@,
        json ==> r@ == result_json(*instance, *starter),
{
    if !json {
        return instance.path.clone().concat(starter.path.as_str());
    }
    let main_file = match &starter.config {
        Some(c) => match &c.main_file {
            Some(m) => json_string(m.as_str()),
            None => String::from_str("null"),
        },
        None => String::from_str("null"),
    };
    String::from_str("{\"instance\":{\"name\":").concat(
        json_string(instance.name.as_str()).as_str(),
    ).concat(",\"path\":").concat(json_string(instance.path.as_str()).as_str()).concat(
        "},\"starter\":{\"group\":",
    ).concat(json_string(starter.group.as_str()).as_str()).concat(",\"main_file\":").concat(
        main_file.as_str(),
    ).concat(",\"name\":").concat(json_string(starter.name.as_str()).as_str()).concat("}}")
}

} // verus!
