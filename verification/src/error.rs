//! What can go wrong with a bulb.
use vstd::prelude::*;
use vstd::string::to_string_from_display_ensures;

verus! {

/// `std::io::Error`, of which nothing is known but that it is carried along.
#[verifier::external_type_specification]
#[verifier::external_body]
pub struct ExIoError(std::io::Error);

#[derive(Debug)]
pub enum YeelightError {
    Io(std::io::Error),
    Json(serde_json::Error),
    /// A parameter was out of range or semantically invalid.
    InvalidParam(&'static str),
    /// The bulb sent back an unexpected or malformed response.
    Protocol(String),
}

pub type Result<T> = std::result::Result<T, YeelightError>;

impl YeelightError {
    /// This error is the refusal of a parameter, for the reason given.
    pub open spec fn refuses(self, reason: Seq<char>) -> bool {
        self matches YeelightError::InvalidParam(text) && text@ == reason
    }

    /// The error in words. Of an error of the connection or of JSON it gives what that error
    /// displays itself as.
    pub fn message(&self) -> (r: String)
        ensures
            match self {
                YeelightError::Io(e) => exists|detail: String| #[trigger]
                    to_string_from_display_ensures(e, detail) && r@ == "IO error: "@ + detail@,
                YeelightError::Json(e) => exists|detail: String| #[trigger]
                    to_string_from_display_ensures(e, detail) && r@ == "JSON error: "@ + detail@,
                YeelightError::InvalidParam(text) => r@ == "Invalid parameter: "@ + text@,
                YeelightError::Protocol(text) => r@ == "Protocol error: "@ + text@,
            },
    {
        match self {
            YeelightError::Io(e) => "IO error: ".to_owned().concat(e.to_string().as_str()),
            YeelightError::Json(e) => "JSON error: ".to_owned().concat(e.to_string().as_str()),
            YeelightError::InvalidParam(text) => "Invalid parameter: ".to_owned().concat(text),
            YeelightError::Protocol(text) => "Protocol error: ".to_owned().concat(text.as_str()),
        }
    }
}

impl From<std::io::Error> for YeelightError {
    fn from(e: std::io::Error) -> (r: Self) {
        YeelightError::Io(e)
    }
}

impl vstd::std_specs::convert::FromSpecImpl<std::io::Error> for YeelightError {
    open spec fn obeys_from_spec() -> bool {
        true
    }

    open spec fn from_spec(e: std::io::Error) -> Self {
        YeelightError::Io(e)
    }
}

impl From<serde_json::Error> for YeelightError {
    fn from(e: serde_json::Error) -> (r: Self) {
        YeelightError::Json(e)
    }
}

impl vstd::std_specs::convert::FromSpecImpl<serde_json::Error> for YeelightError {
    open spec fn obeys_from_spec() -> bool {
        true
    }

    open spec fn from_spec(e: serde_json::Error) -> Self {
        YeelightError::Json(e)
    }
}

} // verus!
