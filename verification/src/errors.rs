use vstd::prelude::*;

verus! {

// ---------------------------------------------------------------------------
// Error taxonomy of the document pipeline.  Every variant carries the
// offending identifier or a human-readable detail; `message` renders the
// canonical description exactly as `spec_message` states it.
// ---------------------------------------------------------------------------

#[derive(Debug, Clone, PartialEq)]
pub enum ContextError {
    FileNotFound(String),
    InvalidXml(String),
    MissingRequiredField(String),
    VariableResolutionError(String),
    SerializationError(String),
    MermaidParseError(String),
    ValidationError(String),
    SchemaValidationError(String),
    IoError(String),
    AsyncError(String),
}

pub enum SpecContextError {
    FileNotFound(Seq<char>),
    InvalidXml(Seq<char>),
    MissingRequiredField(Seq<char>),
    VariableResolutionError(Seq<char>),
    SerializationError(Seq<char>),
    MermaidParseError(Seq<char>),
    ValidationError(Seq<char>),
    SchemaValidationError(Seq<char>),
    IoError(Seq<char>),
    AsyncError(Seq<char>),
}

impl View for ContextError {
    type V = SpecContextError;

    open spec fn view(&self) -> SpecContextError {
        match self {
            ContextError::FileNotFound(s) => SpecContextError::FileNotFound(s@),
            ContextError::InvalidXml(s) => SpecContextError::InvalidXml(s@),
            ContextError::MissingRequiredField(s) => SpecContextError::MissingRequiredField(s@),
            ContextError::VariableResolutionError(s) => SpecContextError::VariableResolutionError(
                s@,
            ),
            ContextError::SerializationError(s) => SpecContextError::SerializationError(s@),
            ContextError::MermaidParseError(s) => SpecContextError::MermaidParseError(s@),
            ContextError::ValidationError(s) => SpecContextError::ValidationError(s@),
            ContextError::SchemaValidationError(s) => SpecContextError::SchemaValidationError(s@),
            ContextError::IoError(s) => SpecContextError::IoError(s@),
            ContextError::AsyncError(s) => SpecContextError::AsyncError(s@),
        }
    }
}

/// The canonical rendering of an error: a fixed prefix naming the category,
/// followed by the detail the variant carries.
pub open spec fn spec_message(e: SpecContextError) -> Seq<char> {
    match e {
        SpecContextError::FileNotFound(s) => "File not found: "@ + s,
        SpecContextError::InvalidXml(s) => "Invalid XML structure: "@ + s,
        SpecContextError::MissingRequiredField(s) => "Missing required field: "@ + s,
        SpecContextError::VariableResolutionError(s) => "Variable resolution error: "@ + s,
        SpecContextError::SerializationError(s) => "Serialization error: "@ + s,
        SpecContextError::MermaidParseError(s) => "Mermaid parsing error: "@ + s,
        SpecContextError::ValidationError(s) => "Graph validation error: "@ + s,
        SpecContextError::SchemaValidationError(s) => "Schema validation error: "@ + s,
        SpecContextError::IoError(s) => "IO error: "@ + s,
        SpecContextError::AsyncError(s) => "Async task error: "@ + s,
    }
}

impl ContextError {
    /// Render the error as text, category prefix first.
    pub fn message(&self) -> (r: String)
        ensures
            r@ == spec_message(self@),
    {
        match self {
            ContextError::FileNotFound(s) => String::from_str("File not found: ").concat(
                s.as_str(),
            ),
            ContextError::InvalidXml(s) => String::from_str("Invalid XML structure: ").concat(
                s.as_str(),
            ),
            ContextError::MissingRequiredField(s) => String::from_str(
                "Missing required field: ",
            ).concat(s.as_str()),
            ContextError::VariableResolutionError(s) => String::from_str(
                "Variable resolution error: ",
            ).concat(s.as_str()),
            ContextError::SerializationError(s) => String::from_str("Serialization error: ").concat(
                s.as_str(),
            ),
            ContextError::MermaidParseError(s) => String::from_str("Mermaid parsing error: ").concat(
                s.as_str(),
            ),
            ContextError::ValidationError(s) => String::from_str("Graph validation error: ").concat(
                s.as_str(),
            ),
            ContextError::SchemaValidationError(s) => String::from_str(
                "Schema validation error: ",
            ).concat(s.as_str()),
            ContextError::IoError(s) => String::from_str("IO error: ").concat(s.as_str()),
            ContextError::AsyncError(s) => String::from_str("Async task error: ").concat(s.as_str()),
        }
    }
}

} // verus!
