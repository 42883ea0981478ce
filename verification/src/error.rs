//! Error types for the JSON Schema to Luau converter.

use vstd::prelude::*;

use crate::ir::types::opt_text;
use crate::text::{decimal, owned, push_decimal};

verus! {

/// Model of [`ConversionError`].
pub enum ErrorModel {
    JsonParse { message: Seq<char>, location: Option<Seq<char>> },
    SchemaParse { message: Seq<char>, path: Option<Seq<char>> },
    UnsupportedFeature { feature: Seq<char>, context: Option<Seq<char>> },
    UnsupportedRef { ref_path: Seq<char> },
    TypeResolution { message: Seq<char> },
    Io { message: Seq<char> },
    Other { message: Seq<char> },
}

/// Error type for conversion failures.
#[derive(Debug)]
pub enum ConversionError {
    /// Failed to parse JSON.
    JsonParse {
        /// Error message.
        message: String,
        /// Location in the JSON where the error occurred.
        location: Option<String>,
    },
    /// Failed to parse JSON Schema.
    SchemaParse {
        /// Error message.
        message: String,
        /// Path in the schema where the error occurred.
        path: Option<String>,
    },
    /// Unsupported schema feature.
    UnsupportedFeature {
        /// The unsupported feature.
        feature: String,
        /// Optional context about where the feature was encountered.
        context: Option<String>,
    },
    /// Unsupported $ref format.
    UnsupportedRef {
        /// The reference path.
        ref_path: String,
    },
    /// Type resolution error.
    TypeResolution {
        /// Error message.
        message: String,
    },
    /// IO error, carrying the text of the underlying I/O error.
    Io(String),
    /// Generic error with message.
    Other(String),
}

impl View for ConversionError {
    type V = ErrorModel;

    open spec fn view(&self) -> ErrorModel {
        match self {
            ConversionError::JsonParse { message, location } => ErrorModel::JsonParse {
                message: message@,
                location: opt_text(*location),
            },
            ConversionError::SchemaParse { message, path } => ErrorModel::SchemaParse {
                message: message@,
                path: opt_text(*path),
            },
            ConversionError::UnsupportedFeature { feature, context } =>
                ErrorModel::UnsupportedFeature { feature: feature@, context: opt_text(*context) },
            ConversionError::UnsupportedRef { ref_path } => ErrorModel::UnsupportedRef {
                ref_path: ref_path@,
            },
            ConversionError::TypeResolution { message } => ErrorModel::TypeResolution {
                message: message@,
            },
            ConversionError::Io(m) => ErrorModel::Io { message: m@ },
            ConversionError::Other(m) => ErrorModel::Other { message: m@ },
        }
    }
}

/// The text a JSON parse error gives for where it happened.
pub open spec fn location_text(line: nat, column: nat) -> Seq<char> {
    "line "@ + decimal(line) + ", column "@ + decimal(column)
}

/// The human-readable message of an error.
pub open spec fn error_message(e: ErrorModel) -> Seq<char> {
    match e {
        ErrorModel::JsonParse { message, .. } => "Failed to parse JSON: "@ + message,
        ErrorModel::SchemaParse { message, .. } => "Invalid JSON Schema: "@ + message,
        ErrorModel::UnsupportedFeature { feature, .. } => "Unsupported schema feature: "@
            + feature,
        ErrorModel::UnsupportedRef { ref_path } => "Unsupported $ref format: '"@ + ref_path
            + "'. Only local references (#/definitions/... or #/$defs/...) are supported."@,
        ErrorModel::TypeResolution { message } => "Failed to resolve type: "@ + message,
        ErrorModel::Io { message } => "IO error: "@ + message,
        ErrorModel::Other { message } => message,
    }
}

impl ConversionError {
    /// Create a JSON parse error.
    pub fn json_parse(message: &str) -> (r: Self)
        ensures
            r@ == (ErrorModel::JsonParse { message: message@, location: None }),
    {
        ConversionError::JsonParse { message: owned(message), location: None }
    }

    /// Create a JSON parse error with location.
    pub fn json_parse_with_location(message: &str, location: &str) -> (r: Self)
        ensures
            r@ == (ErrorModel::JsonParse { message: message@, location: Some(location@) }),
    {
        ConversionError::JsonParse { message: owned(message), location: Some(owned(location)) }
    }

    /// Create a JSON parse error from a message and the line and column at
    /// which the problem was found (as a JSON reader reports them).
    pub fn json_parse_at(message: &str, line: usize, column: usize) -> (r: Self)
        ensures
            r@ == (ErrorModel::JsonParse {
                message: message@,
                location: Some(location_text(line as nat, column as nat)),
            }),
    {
        let mut location = owned("line ");
        push_decimal(&mut location, line);
        location.append(", column ");
        push_decimal(&mut location, column);
        assert(location@ =~= location_text(line as nat, column as nat));
        ConversionError::JsonParse { message: owned(message), location: Some(location) }
    }

    /// Create a schema parse error.
    pub fn schema_parse(message: &str) -> (r: Self)
        ensures
            r@ == (ErrorModel::SchemaParse { message: message@, path: None }),
    {
        ConversionError::SchemaParse { message: owned(message), path: None }
    }

    /// Create a schema parse error with path.
    pub fn schema_parse_with_path(message: &str, path: &str) -> (r: Self)
        ensures
            r@ == (ErrorModel::SchemaParse { message: message@, path: Some(path@) }),
    {
        ConversionError::SchemaParse { message: owned(message), path: Some(owned(path)) }
    }

    /// Create an unsupported feature error.
    pub fn unsupported_feature(feature: &str) -> (r: Self)
        ensures
            r@ == (ErrorModel::UnsupportedFeature { feature: feature@, context: None }),
    {
        ConversionError::UnsupportedFeature { feature: owned(feature), context: None }
    }

    /// Create an unsupported feature error with context.
    pub fn unsupported_feature_with_context(feature: &str, context: &str) -> (r: Self)
        ensures
            r@ == (ErrorModel::UnsupportedFeature { feature: feature@, context: Some(context@) }),
    {
        ConversionError::UnsupportedFeature {
            feature: owned(feature),
            context: Some(owned(context)),
        }
    }

    /// Create an unsupported $ref error.
    pub fn unsupported_ref(ref_path: &str) -> (r: Self)
        ensures
            r@ == (ErrorModel::UnsupportedRef { ref_path: ref_path@ }),
    {
        ConversionError::UnsupportedRef { ref_path: owned(ref_path) }
    }

    /// Create a type resolution error.
    pub fn type_resolution(message: &str) -> (r: Self)
        ensures
            r@ == (ErrorModel::TypeResolution { message: message@ }),
    {
        ConversionError::TypeResolution { message: owned(message) }
    }

    /// Create an I/O error from the text of the underlying I/O error.
    pub fn io(message: &str) -> (r: Self)
        ensures
            r@ == (ErrorModel::Io { message: message@ }),
    {
        ConversionError::Io(owned(message))
    }

    /// Create a generic error.
    pub fn other(message: &str) -> (r: Self)
        ensures
            r@ == (ErrorModel::Other { message: message@ }),
    {
        ConversionError::Other(owned(message))
    }

    /// The human-readable message of the error.
    pub fn message(&self) -> (r: String)
        ensures
            r@ == error_message(self@),
    {
        match self {
            ConversionError::JsonParse { message, .. } => {
                let mut out = owned("Failed to parse JSON: ");
                out.append(message.as_str());
                out
            },
            ConversionError::SchemaParse { message, .. } => {
                let mut out = owned("Invalid JSON Schema: ");
                out.append(message.as_str());
                out
            },
            ConversionError::UnsupportedFeature { feature, .. } => {
                let mut out = owned("Unsupported schema feature: ");
                out.append(feature.as_str());
                out
            },
            ConversionError::UnsupportedRef { ref_path } => {
                let mut out = owned("Unsupported $ref format: '");
                out.append(ref_path.as_str());
                out.append(
                    "'. Only local references (#/definitions/... or #/$defs/...) are supported.",
                );
                out
            },
            ConversionError::TypeResolution { message } => {
                let mut out = owned("Failed to resolve type: ");
                out.append(message.as_str());
                out
            },
            ConversionError::Io(m) => {
                let mut out = owned("IO error: ");
                out.append(m.as_str());
                out
            },
            ConversionError::Other(m) => owned(m.as_str()),
        }
    }
}

} // verus!
