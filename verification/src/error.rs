//! Structured error values for the library.
//!
//! Every failure a caller can see is one of these variants; each carries a
//! human-readable message. The variant tells the caller which stage failed.

use vstd::prelude::*;

verus! {

/// Main error type for recognition operations.
#[derive(Debug)]
pub enum RecogError {
    /// XML parsing or fingerprint loading failed.
    XmlParsing { message: String },
    /// A pattern did not compile.
    Regex { message: String },
    /// Base64 decoding failed.
    Base64 { message: String },
    /// File I/O failed.
    Io { message: String },
    /// Decoded bytes were not valid UTF-8 text.
    Utf8 { message: String },
    /// JSON serialization failed.
    Json { message: String },
    /// A fingerprint definition was invalid.
    InvalidFingerprintData { message: String },
    /// Parameter processing failed.
    Parameter { message: String },
    /// Pattern matching failed.
    Matching { message: String },
    /// Configuration was invalid.
    Configuration { message: String },
    /// Any other failure, with context.
    Custom { message: String },
}

/// Result alias used throughout the library.
pub type RecogResult<T> = Result<T, RecogError>;

impl RecogError {
    /// The message carried by this error, whatever the variant.
    pub open spec fn message_view(&self) -> Seq<char> {
        match self {
            RecogError::XmlParsing { message } => message@,
            RecogError::Regex { message } => message@,
            RecogError::Base64 { message } => message@,
            RecogError::Io { message } => message@,
            RecogError::Utf8 { message } => message@,
            RecogError::Json { message } => message@,
            RecogError::InvalidFingerprintData { message } => message@,
            RecogError::Parameter { message } => message@,
            RecogError::Matching { message } => message@,
            RecogError::Configuration { message } => message@,
            RecogError::Custom { message } => message@,
        }
    }

    /// The fixed prefix that introduces this error's message when rendered.
    pub open spec fn prefix_view(&self) -> Seq<char> {
        match self {
            RecogError::XmlParsing { .. } => "XML parsing error: "@,
            RecogError::Regex { .. } => "Regex error: "@,
            RecogError::Base64 { .. } => "Base64 error: "@,
            RecogError::Io { .. } => "File I/O error: "@,
            RecogError::Utf8 { .. } => "UTF-8 conversion error: "@,
            RecogError::Json { .. } => "JSON error: "@,
            RecogError::InvalidFingerprintData { .. } => "Invalid fingerprint data: "@,
            RecogError::Parameter { .. } => "Parameter error: "@,
            RecogError::Matching { .. } => "Matching error: "@,
            RecogError::Configuration { .. } => "Configuration error: "@,
            RecogError::Custom { .. } => "Error: "@,
        }
    }

    /// Create a custom error with a message.
    pub fn custom(message: &str) -> (e: Self)
        ensures
            e matches RecogError::Custom { message: m } && m@ == message@,
    {
        RecogError::Custom { message: message.to_owned() }
    }

    /// Create an invalid fingerprint data error.
    pub fn invalid_fingerprint_data(message: &str) -> (e: Self)
        ensures
            e matches RecogError::InvalidFingerprintData { message: m } && m@ == message@,
    {
        RecogError::InvalidFingerprintData { message: message.to_owned() }
    }

    /// Create a parameter error.
    pub fn parameter(message: &str) -> (e: Self)
        ensures
            e matches RecogError::Parameter { message: m } && m@ == message@,
    {
        RecogError::Parameter { message: message.to_owned() }
    }

    /// Create a matching error.
    pub fn matching(message: &str) -> (e: Self)
        ensures
            e matches RecogError::Matching { message: m } && m@ == message@,
    {
        RecogError::Matching { message: message.to_owned() }
    }

    /// Create a configuration error.
    pub fn configuration(message: &str) -> (e: Self)
        ensures
            e matches RecogError::Configuration { message: m } && m@ == message@,
    {
        RecogError::Configuration { message: message.to_owned() }
    }

    /// Render the error as prefix plus message, as `Display` would.
    pub fn display_string(&self) -> (s: String)
        ensures
            s@ == self.prefix_view() + self.message_view(),
    {
        match self {
            RecogError::XmlParsing { message } => {
                let mut s = String::new();
                s.append("XML parsing error: ");
                s.append(message.as_str());
                s
            },
            RecogError::Regex { message } => {
                let mut s = String::new();
                s.append("Regex error: ");
                s.append(message.as_str());
                s
            },
            RecogError::Base64 { message } => {
                let mut s = String::new();
                s.append("Base64 error: ");
                s.append(message.as_str());
                s
            },
            RecogError::Io { message } => {
                let mut s = String::new();
                s.append("File I/O error: ");
                s.append(message.as_str());
                s
            },
            RecogError::Utf8 { message } => {
                let mut s = String::new();
                s.append("UTF-8 conversion error: ");
                s.append(message.as_str());
                s
            },
            RecogError::Json { message } => {
                let mut s = String::new();
                s.append("JSON error: ");
                s.append(message.as_str());
                s
            },
            RecogError::InvalidFingerprintData { message } => {
                let mut s = String::new();
                s.append("Invalid fingerprint data: ");
                s.append(message.as_str());
                s
            },
            RecogError::Parameter { message } => {
                let mut s = String::new();
                s.append("Parameter error: ");
                s.append(message.as_str());
                s
            },
            RecogError::Matching { message } => {
                let mut s = String::new();
                s.append("Matching error: ");
                s.append(message.as_str());
                s
            },
            RecogError::Configuration { message } => {
                let mut s = String::new();
                s.append("Configuration error: ");
                s.append(message.as_str());
                s
            },
            RecogError::Custom { message } => {
                let mut s = String::new();
                s.append("Error: ");
                s.append(message.as_str());
                s
            },
        }
    }
}

} // verus!
