use vstd::prelude::*;
use vstd::string::StringExecFns;

verus! {

/// Why rendering a response failed.
#[derive(Debug, PartialEq, Eq)]
pub enum RenderError {
    /// The response declares a JSON body, but the body is not JSON.
    InvalidJson,
    /// The syntax highlighter could not be set up or failed on a line.
    Highlight,
}

/// The failures of the library, each with the input that caused it.
#[derive(Debug, PartialEq, Eq)]
pub enum Error {
    /// The text is not an absolute URL.
    InvalidUrl(String),
    /// The token holds no `=`.
    MalformedPair(String),
    /// The response could not be rendered.
    Render(RenderError),
}

impl Error {
    /// A line for the user that says what went wrong.
    pub fn message(&self) -> (r: String)
        ensures
            match self {
                Error::InvalidUrl(s) => r@ == "invalid URL: "@ + s@,
                Error::MalformedPair(s) => r@ == "Failed to parse "@ + s@,
                Error::Render(RenderError::InvalidJson) => r@ == "the body is not valid JSON"@,
                Error::Render(RenderError::Highlight) => r@
                    == "the JSON body could not be highlighted"@,
            },
    {
        match self {
            Error::InvalidUrl(s) => {
                let mut m = String::from_str("invalid URL: ");
                m.append(s.as_str());
                m
            },
            Error::MalformedPair(s) => {
                let mut m = String::from_str("Failed to parse ");
                m.append(s.as_str());
                m
            },
            Error::Render(RenderError::InvalidJson) => String::from_str("the body is not valid JSON"),
            Error::Render(RenderError::Highlight) => String::from_str(
                "the JSON body could not be highlighted",
            ),
        }
    }
}

} // verus!
