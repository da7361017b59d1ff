//! The transform feedback varyings of the explosion shader, read from their
//! JSON description.

use vstd::prelude::*;

verus! {

/// The outputs of the explosion vertex shader that transform feedback
/// captures, as a JSON array of names.
pub const FEEDBACK_VARYINGS_JSON: &'static str = "\n    [\"vPosition\", \"vVelocity\"]\n    ";

/// What `serde_json` reads from `text` when asked for a list of strings:
/// the strings, or nothing when the text is not a JSON array of strings.
pub uninterp spec fn json_string_list(text: Seq<char>) -> Option<Seq<Seq<char>>>;

/// The views of a list of strings.
pub open spec fn string_views(names: Seq<String>) -> Seq<Seq<char>> {
    names.map_values(|name: String| name@)
}

#[verifier::external_type_specification]
#[verifier::external_body]
pub struct ExJsonError(serde_json::Error);

/// Calls `serde_json::from_str::<Vec<String>>`. Trusted: the strings it
/// returns, or its failure, are what `json_string_list` names for the
/// text; nothing is stated of the error's content.
#[verifier::external_body]
fn parse_string_list(text: &str) -> (parsed: Result<Vec<String>, serde_json::Error>)
    ensures
        match parsed {
            Ok(names) => json_string_list(text@) == Some(string_views(names@)),
            Err(_) => json_string_list(text@) is None,
        },
{
    serde_json::from_str::<Vec<String>>(text)
}

/// Why the explosion shader could not be set up.
#[derive(Clone, Copy, Debug, PartialEq, Eq, Structural)]
pub enum ShaderSetupError {
    /// The varyings description is not a JSON array of strings.
    MalformedVaryings,
}

/// The names of the varyings that transform feedback captures, read from
/// [`FEEDBACK_VARYINGS_JSON`].
pub fn transform_feedback_varyings() -> (names: Result<Vec<String>, ShaderSetupError>)
    ensures
        match names {
            Ok(v) => json_string_list(FEEDBACK_VARYINGS_JSON@) == Some(string_views(v@)),
            Err(e) => e == ShaderSetupError::MalformedVaryings && json_string_list(
                FEEDBACK_VARYINGS_JSON@,
            ) is None,
        },
{
    match parse_string_list(FEEDBACK_VARYINGS_JSON) {
        Ok(v) => Ok(v),
        Err(_) => Err(ShaderSetupError::MalformedVaryings),
    }
}

} // verus!
