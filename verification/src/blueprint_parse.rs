//! The checks a blueprint document passes before it is read into a
//! [`Blueprint`](crate::schema::Blueprint): its size, that it is not blank,
//! and that its top-level YAML value is a mapping.

use vstd::prelude::*;
use crate::text::{
    byte_len, decimal, push_str_chars, to_owned_string, trim, trim_str, u64_to_decimal, utf8_len,
};

verus! {

/// Maximum blueprint input size (1 MB). Protects against excessive memory
/// usage from very large or malicious inputs (e.g., YAML anchor bombs).
pub const MAX_BLUEPRINT_SIZE: usize = 1_048_576;

/// `serde_yaml::Error`, carried opaque.
#[verifier::external_type_specification]
#[verifier::external_body]
pub struct ExYamlError(serde_yaml::Error);

/// Errors that can occur when parsing blueprint YAML.
#[derive(Debug)]
#[non_exhaustive]
pub enum ParseError {
    /// The input was empty.
    EmptyInput,
    /// The input exceeds the maximum allowed size.
    InputTooLarge { size: usize, max: usize },
    /// The YAML was not a mapping (e.g., it was a list or scalar).
    NotAMapping { actual_type: String },
    /// YAML syntax error or deserialization failure.
    YamlError { source: serde_yaml::Error },
}

/// The kind of a YAML document's top-level value (tags looked through).
#[derive(Debug, Clone, Copy, PartialEq, Eq, Structural)]
pub enum YamlKind {
    Mapping,
    Sequence,
    String,
    Number,
    Boolean,
    Null,
    Other,
}

/// The kind of the top-level value of the YAML document `text`, or `None`
/// when `text` is not well-formed YAML.
pub uninterp spec fn yaml_kind_of(text: Seq<char>) -> Option<YamlKind>;

/// Parses `text` as a `serde_yaml::Value` (`serde_yaml::from_str`) and tells
/// which kind of value it is by the value's own `is_mapping`,
/// `is_sequence`, `is_string`, `is_number`, `is_bool` and `is_null`, tried
/// in that order. The contract claims only that the outcome is a function
/// of `text`, named `yaml_kind_of`.
#[verifier::external_body]
fn parse_yaml_kind(text: &str) -> (r: Result<YamlKind, serde_yaml::Error>)
    ensures
        match r {
            Ok(k) => yaml_kind_of(text@) == Some(k),
            Err(_) => yaml_kind_of(text@) is None,
        },
{
    match serde_yaml::from_str::<serde_yaml::Value>(text) {
        Ok(v) => Ok(
            if v.is_mapping() { YamlKind::Mapping }
            else if v.is_sequence() { YamlKind::Sequence }
            else if v.is_string() { YamlKind::String }
            else if v.is_number() { YamlKind::Number }
            else if v.is_bool() { YamlKind::Boolean }
            else if v.is_null() { YamlKind::Null }
            else { YamlKind::Other },
        ),
        Err(e) => Err(e),
    }
}

/// The name a non-mapping kind is reported under.
pub open spec fn kind_name(k: YamlKind) -> Seq<char> {
    match k {
        YamlKind::Sequence => "sequence"@,
        YamlKind::String => "string"@,
        YamlKind::Number => "number"@,
        YamlKind::Boolean => "boolean"@,
        _ => "unknown type"@,
    }
}

/// Checks a blueprint document before it is read: too large (over
/// [`MAX_BLUEPRINT_SIZE`] bytes), blank, not YAML, or a top-level value that
/// is not a mapping (a null document counts as empty). On success returns
/// the trimmed text, which is what is to be deserialized.
pub fn check_blueprint_text(yaml: &str) -> (r: Result<String, ParseError>)
    requires
        utf8_len(yaml@) <= usize::MAX,
    ensures
        utf8_len(yaml@) > MAX_BLUEPRINT_SIZE ==> (r matches Err(ParseError::InputTooLarge { size, max })
            && size == utf8_len(yaml@) && max == MAX_BLUEPRINT_SIZE),
        utf8_len(yaml@) <= MAX_BLUEPRINT_SIZE && trim(yaml@).len() == 0 ==> r matches Err(
            ParseError::EmptyInput,
        ),
        utf8_len(yaml@) <= MAX_BLUEPRINT_SIZE && trim(yaml@).len() > 0 ==> match yaml_kind_of(trim(yaml@)) {
            None => r matches Err(ParseError::YamlError { .. }),
            Some(YamlKind::Mapping) => (r matches Ok(t) && t@ == trim(yaml@)),
            Some(YamlKind::Null) => r matches Err(ParseError::EmptyInput),
            Some(k) => (r matches Err(ParseError::NotAMapping { actual_type }) && actual_type@ == kind_name(k)),
        },
{
    let size = byte_len(yaml);
    if size > MAX_BLUEPRINT_SIZE {
        return Err(ParseError::InputTooLarge { size, max: MAX_BLUEPRINT_SIZE });
    }
    let trimmed = trim_str(yaml);
    if trimmed.as_str().is_empty() {
        return Err(ParseError::EmptyInput);
    }
    match parse_yaml_kind(trimmed.as_str()) {
        Err(e) => Err(ParseError::YamlError { source: e }),
        Ok(YamlKind::Mapping) => Ok(trimmed),
        Ok(YamlKind::Null) => Err(ParseError::EmptyInput),
        Ok(YamlKind::Sequence) => Err(ParseError::NotAMapping { actual_type: to_owned_string("sequence") }),
        Ok(YamlKind::String) => Err(ParseError::NotAMapping { actual_type: to_owned_string("string") }),
        Ok(YamlKind::Number) => Err(ParseError::NotAMapping { actual_type: to_owned_string("number") }),
        Ok(YamlKind::Boolean) => Err(ParseError::NotAMapping { actual_type: to_owned_string("boolean") }),
        Ok(YamlKind::Other) => Err(ParseError::NotAMapping { actual_type: to_owned_string("unknown type") }),
    }
}

/// The text of a `serde_yaml::Error` (its `Display`). Nothing is claimed of
/// it.
#[verifier::external_body]
fn yaml_error_text(e: &serde_yaml::Error) -> String {
    e.to_string()
}

/// The message of a parse error whose text is the library's own (`None` for
/// a YAML error, which carries the parser's message).
pub open spec fn parse_error_text(e: ParseError) -> Option<Seq<char>> {
    match e {
        ParseError::EmptyInput => Some("Empty blueprint file. See `darkshell blueprint --help` for format."@),
        ParseError::InputTooLarge { size, max } => Some(
            "Blueprint input is "@ + decimal(size as nat) + " bytes, exceeding the "@ + decimal(max as nat)
                + " byte limit. Reduce the blueprint size or split into multiple files."@,
        ),
        ParseError::NotAMapping { actual_type } => Some(
            "Blueprint must be a YAML mapping, not a "@ + actual_type@
                + ". Expected `apiVersion`, `kind`, `metadata`, `spec`."@,
        ),
        ParseError::YamlError { .. } => None,
    }
}

impl ParseError {
    /// The error's message.
    pub fn to_display_string(&self) -> (r: String)
        ensures
            parse_error_text(*self) matches Some(t) ==> r@ == t,
            *self is YamlError ==> "YAML parse error: "@.is_prefix_of(r@),
    {
        match self {
            ParseError::EmptyInput => to_owned_string(
                "Empty blueprint file. See `darkshell blueprint --help` for format.",
            ),
            ParseError::InputTooLarge { size, max } => {
                let mut s = to_owned_string("Blueprint input is ");
                push_str_chars(&mut s, u64_to_decimal(*size as u64).as_str());
                push_str_chars(&mut s, " bytes, exceeding the ");
                push_str_chars(&mut s, u64_to_decimal(*max as u64).as_str());
                push_str_chars(&mut s, " byte limit. Reduce the blueprint size or split into multiple files.");
                s
            },
            ParseError::NotAMapping { actual_type } => {
                let mut s = to_owned_string("Blueprint must be a YAML mapping, not a ");
                push_str_chars(&mut s, actual_type.as_str());
                push_str_chars(&mut s, ". Expected `apiVersion`, `kind`, `metadata`, `spec`.");
                s
            },
            ParseError::YamlError { source } => {
                let mut s = to_owned_string("YAML parse error: ");
                let t = yaml_error_text(source);
                push_str_chars(&mut s, t.as_str());
                s
            },
        }
    }
}

} // verus!
