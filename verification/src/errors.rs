//! The library's error type: every way a request can fail before or
//! while a URL is processed, with a descriptive message.

use vstd::prelude::*;
use vstd::string::StringExecFns;
use crate::component::UrlComponent;

verus! {

/// A failure of the core pipeline.
#[derive(Debug)]
pub enum CoreError {
    /// The input text is not a valid absolute URL.
    UrlParse { input: String },
    /// A `set` token lacks the `component=value` separator.
    AssignmentSyntax { token: String },
    /// A token names no component of the registry.
    UnknownComponent { name: String },
    /// The URL model rejected a component assignment.
    ComponentSet { component: UrlComponent, value: String },
}

impl CoreError {
    /// The message this error prints.
    pub open spec fn spec_message(self) -> Seq<char> {
        match self {
            CoreError::UrlParse { input } => "invalid URL "@ + input@,
            CoreError::AssignmentSyntax { token } =>
                "should be \"url_part=value\" got "@ + token@,
            CoreError::UnknownComponent { name } =>
                "unknown URL component "@ + name@,
            CoreError::ComponentSet { component, value } =>
                "invalid "@ + component.spec_name() + " "@ + value@,
        }
    }

    /// A human-readable description identifying the offending input.
    pub fn message(&self) -> (r: String)
        ensures
            r@ == self.spec_message(),
    {
        match self {
            CoreError::UrlParse { input } => {
                String::from_str("invalid URL ").concat(input.as_str())
            }
            CoreError::AssignmentSyntax { token } => {
                String::from_str("should be \"url_part=value\" got ").concat(token.as_str())
            }
            CoreError::UnknownComponent { name } => {
                String::from_str("unknown URL component ").concat(name.as_str())
            }
            CoreError::ComponentSet { component, value } => {
                String::from_str("invalid ")
                    .concat(component.name())
                    .concat(" ")
                    .concat(value.as_str())
            }
        }
    }
}

} // verus!
